//! Tokens of the language and the scanner that produces them.
use crate::seqs::{first_index, lemma_first_index, lemma_first_index_is};
use crate::text::{chars_of, string_from_chars};
use vstd::prelude::*;

verus! {

/// The kind of a token, with its text where the kind does not fix it.
#[derive(Debug, PartialEq, Clone)]
pub enum TokenType {
    // Keywords
    Let,
    Fn,
    Return,
    If,
    Else,
    While,
    For,
    Struct,
    Enum,
    Match,
    Async,
    Await,
    Move,
    Own,
    Ref,
    // Literals
    Integer(i64),
    /// A number with one decimal point, as it was written.
    Float(String),
    String(String),
    Identifier(String),
    // Operators
    Plus,
    Minus,
    Multiply,
    Divide,
    Assign,
    Equal,
    NotEqual,
    Greater,
    Less,
    GreaterEqual,
    LessEqual,
    // Delimiters
    LeftParen,
    RightParen,
    LeftBrace,
    RightBrace,
    LeftBracket,
    RightBracket,
    Semicolon,
    Colon,
    Comma,
    Arrow,
    /// A number that is too large or has more than one decimal point, or
    /// a string without its closing quote, as it was written.
    Malformed(String),
    /// A character that starts no token.
    Unexpected(char),
    EOF,
}

/// The kind of a token, as a mathematical value.
pub enum TokenModel {
    Let,
    Fn,
    Return,
    If,
    Else,
    While,
    For,
    Struct,
    Enum,
    Match,
    Async,
    Await,
    Move,
    Own,
    Ref,
    Integer(i64),
    Float(Seq<char>),
    String(Seq<char>),
    Identifier(Seq<char>),
    Plus,
    Minus,
    Multiply,
    Divide,
    Assign,
    Equal,
    NotEqual,
    Greater,
    Less,
    GreaterEqual,
    LessEqual,
    LeftParen,
    RightParen,
    LeftBrace,
    RightBrace,
    LeftBracket,
    RightBracket,
    Semicolon,
    Colon,
    Comma,
    Arrow,
    Malformed(Seq<char>),
    Unexpected(char),
    EOF,
}

impl View for TokenType {
    type V = TokenModel;

    open spec fn view(&self) -> TokenModel {
        match *self {
            TokenType::Let => TokenModel::Let,
            TokenType::Fn => TokenModel::Fn,
            TokenType::Return => TokenModel::Return,
            TokenType::If => TokenModel::If,
            TokenType::Else => TokenModel::Else,
            TokenType::While => TokenModel::While,
            TokenType::For => TokenModel::For,
            TokenType::Struct => TokenModel::Struct,
            TokenType::Enum => TokenModel::Enum,
            TokenType::Match => TokenModel::Match,
            TokenType::Async => TokenModel::Async,
            TokenType::Await => TokenModel::Await,
            TokenType::Move => TokenModel::Move,
            TokenType::Own => TokenModel::Own,
            TokenType::Ref => TokenModel::Ref,
            TokenType::Integer(n) => TokenModel::Integer(n),
            TokenType::Float(s) => TokenModel::Float(s@),
            TokenType::String(s) => TokenModel::String(s@),
            TokenType::Identifier(s) => TokenModel::Identifier(s@),
            TokenType::Plus => TokenModel::Plus,
            TokenType::Minus => TokenModel::Minus,
            TokenType::Multiply => TokenModel::Multiply,
            TokenType::Divide => TokenModel::Divide,
            TokenType::Assign => TokenModel::Assign,
            TokenType::Equal => TokenModel::Equal,
            TokenType::NotEqual => TokenModel::NotEqual,
            TokenType::Greater => TokenModel::Greater,
            TokenType::Less => TokenModel::Less,
            TokenType::GreaterEqual => TokenModel::GreaterEqual,
            TokenType::LessEqual => TokenModel::LessEqual,
            TokenType::LeftParen => TokenModel::LeftParen,
            TokenType::RightParen => TokenModel::RightParen,
            TokenType::LeftBrace => TokenModel::LeftBrace,
            TokenType::RightBrace => TokenModel::RightBrace,
            TokenType::LeftBracket => TokenModel::LeftBracket,
            TokenType::RightBracket => TokenModel::RightBracket,
            TokenType::Semicolon => TokenModel::Semicolon,
            TokenType::Colon => TokenModel::Colon,
            TokenType::Comma => TokenModel::Comma,
            TokenType::Arrow => TokenModel::Arrow,
            TokenType::Malformed(s) => TokenModel::Malformed(s@),
            TokenType::Unexpected(c) => TokenModel::Unexpected(c),
            TokenType::EOF => TokenModel::EOF,
        }
    }
}

/// A token with the line and column of its first character, both counted
/// from 1.
#[derive(Debug)]
pub struct Token {
    pub token_type: TokenType,
    pub line: usize,
    pub column: usize,
}

/// Whether a character separates tokens.
pub open spec fn is_space(c: char) -> bool {
    c == ' ' || c == '\t' || c == '\n' || c == '\r'
}

/// Whether a character is a decimal digit.
pub open spec fn is_digit(c: char) -> bool {
    '0' <= c <= '9'
}

/// Whether a character can start an identifier.
pub open spec fn is_identifier_start(c: char) -> bool {
    ('a' <= c <= 'z') || ('A' <= c <= 'Z') || c == '_'
}

/// Whether a character can continue an identifier.
pub open spec fn is_identifier_part(c: char) -> bool {
    is_identifier_start(c) || is_digit(c)
}

/// The value of a digit.
pub open spec fn digit_value(c: char) -> int {
    c as int - '0' as int
}

/// The number that decimal digits stand for.
pub open spec fn decimal_value(digits: Seq<char>) -> nat
    decreases digits.len(),
{
    if digits.len() == 0 {
        0
    } else {
        (decimal_value(digits.drop_last()) * 10 + digit_value(digits.last())) as nat
    }
}

/// Whether every character is a decimal digit.
pub open spec fn all_digits(digits: Seq<char>) -> bool {
    forall|i: int| 0 <= i < digits.len() ==> is_digit(#[trigger] digits[i])
}

/// Number of decimal points in a text.
pub open spec fn points(text: Seq<char>) -> nat
    decreases text.len(),
{
    if text.len() == 0 {
        0
    } else {
        points(text.drop_last()) + if text.last() == '.' {
            1nat
        } else {
            0nat
        }
    }
}

/// Index of the first character at or after `from` that satisfies `p`,
/// or the length of the text.
pub open spec fn stop(input: Seq<char>, from: int, p: spec_fn(char) -> bool) -> int {
    from + first_index(input.skip(from), p)
}

/// Whether a character ends a line.
pub open spec fn line_feed() -> spec_fn(char) -> bool {
    |c: char| c == '\n'
}

/// Whether a character closes a string.
pub open spec fn quote() -> spec_fn(char) -> bool {
    |c: char| c == '"'
}

/// Whether a character cannot continue an identifier.
pub open spec fn no_identifier_part() -> spec_fn(char) -> bool {
    |c: char| !is_identifier_part(c)
}

/// Whether a character cannot continue a number.
pub open spec fn no_number_part() -> spec_fn(char) -> bool {
    |c: char| !(is_digit(c) || c == '.')
}

/// The position after the blanks, tabs, line ends and comments that
/// start at `pos`.  A comment runs from two slashes to the end of its
/// line.
pub open spec fn blank_end(input: Seq<char>, pos: int) -> int
    decreases input.len() - pos,
{
    if pos < 0 || pos >= input.len() {
        pos
    } else if is_space(input[pos]) {
        blank_end(input, pos + 1)
    } else if input[pos] == '/' && pos + 1 < input.len() && input[pos + 1] == '/' {
        let end = stop(input, pos + 2, line_feed());
        if pos + 2 <= end <= input.len() {
            blank_end(input, end)
        } else {
            pos
        }
    } else {
        pos
    }
}

/// The keyword that a word is, or the word as an identifier.
pub open spec fn word_token(word: Seq<char>) -> TokenModel {
    if word == "let"@ {
        TokenModel::Let
    } else if word == "fn"@ {
        TokenModel::Fn
    } else if word == "return"@ {
        TokenModel::Return
    } else if word == "if"@ {
        TokenModel::If
    } else if word == "else"@ {
        TokenModel::Else
    } else if word == "while"@ {
        TokenModel::While
    } else if word == "for"@ {
        TokenModel::For
    } else if word == "struct"@ {
        TokenModel::Struct
    } else if word == "enum"@ {
        TokenModel::Enum
    } else if word == "match"@ {
        TokenModel::Match
    } else if word == "async"@ {
        TokenModel::Async
    } else if word == "await"@ {
        TokenModel::Await
    } else if word == "move"@ {
        TokenModel::Move
    } else if word == "own"@ {
        TokenModel::Own
    } else if word == "ref"@ {
        TokenModel::Ref
    } else {
        TokenModel::Identifier(word)
    }
}

/// The token of a number as it was written: an integer where it has no
/// decimal point and fits, a float where it has one decimal point,
/// malformed in any other case.
pub open spec fn number_token(text: Seq<char>) -> TokenModel {
    if points(text) == 0 {
        if decimal_value(text) <= i64::MAX {
            TokenModel::Integer(decimal_value(text) as i64)
        } else {
            TokenModel::Malformed(text)
        }
    } else if points(text) == 1 {
        TokenModel::Float(text)
    } else {
        TokenModel::Malformed(text)
    }
}

/// The token that starts at `pos`, and the position after it.  At the
/// end of the text the token is `EOF` and the position stays.
pub open spec fn scan(input: Seq<char>, pos: int) -> (TokenModel, int) {
    if pos < 0 || pos >= input.len() {
        (TokenModel::EOF, pos)
    } else {
        let c = input[pos];
        let second = if pos + 1 < input.len() {
            Some(input[pos + 1])
        } else {
            None
        };
        if c == '(' {
            (TokenModel::LeftParen, pos + 1)
        } else if c == ')' {
            (TokenModel::RightParen, pos + 1)
        } else if c == '{' {
            (TokenModel::LeftBrace, pos + 1)
        } else if c == '}' {
            (TokenModel::RightBrace, pos + 1)
        } else if c == '[' {
            (TokenModel::LeftBracket, pos + 1)
        } else if c == ']' {
            (TokenModel::RightBracket, pos + 1)
        } else if c == ';' {
            (TokenModel::Semicolon, pos + 1)
        } else if c == ':' {
            (TokenModel::Colon, pos + 1)
        } else if c == ',' {
            (TokenModel::Comma, pos + 1)
        } else if c == '+' {
            (TokenModel::Plus, pos + 1)
        } else if c == '-' {
            if second == Some('>') {
                (TokenModel::Arrow, pos + 2)
            } else {
                (TokenModel::Minus, pos + 1)
            }
        } else if c == '*' {
            (TokenModel::Multiply, pos + 1)
        } else if c == '/' {
            (TokenModel::Divide, pos + 1)
        } else if c == '=' {
            if second == Some('=') {
                (TokenModel::Equal, pos + 2)
            } else {
                (TokenModel::Assign, pos + 1)
            }
        } else if c == '!' {
            if second == Some('=') {
                (TokenModel::NotEqual, pos + 2)
            } else {
                (TokenModel::Unexpected(c), pos + 1)
            }
        } else if c == '<' {
            if second == Some('=') {
                (TokenModel::LessEqual, pos + 2)
            } else {
                (TokenModel::Less, pos + 1)
            }
        } else if c == '>' {
            if second == Some('=') {
                (TokenModel::GreaterEqual, pos + 2)
            } else {
                (TokenModel::Greater, pos + 1)
            }
        } else if c == '"' {
            let end = stop(input, pos + 1, quote());
            if end < input.len() {
                (TokenModel::String(input.subrange(pos + 1, end)), end + 1)
            } else {
                (TokenModel::Malformed(input.subrange(pos + 1, input.len() as int)), end)
            }
        } else if is_identifier_start(c) {
            let end = stop(input, pos + 1, no_identifier_part());
            (word_token(input.subrange(pos, end)), end)
        } else if is_digit(c) {
            let end = stop(input, pos + 1, no_number_part());
            (number_token(input.subrange(pos, end)), end)
        } else {
            (TokenModel::Unexpected(c), pos + 1)
        }
    }
}

/// The next token from `pos` on: the token after the blanks and comments
/// that start there, and the position after it.
pub open spec fn next(input: Seq<char>, pos: int) -> (TokenModel, int) {
    scan(input, blank_end(input, pos))
}

/// The tokens of the text from `pos` on, without the closing `EOF`.
pub open spec fn token_stream(input: Seq<char>, pos: int) -> Seq<TokenModel>
    decreases input.len() - pos,
{
    let (token, after) = next(input, pos);
    if token is EOF || after <= pos || after > input.len() {
        Seq::<TokenModel>::empty()
    } else {
        seq![token] + token_stream(input, after)
    }
}

/// The line and the column of the character at `pos`, both counted from
/// 1: a line feed starts a new line at column 1.
pub open spec fn place(input: Seq<char>, pos: int) -> (int, int)
    decreases pos,
{
    if pos <= 0 || pos > input.len() {
        (1, 1)
    } else {
        let (line, column) = place(input, pos - 1);
        if input[pos - 1] == '\n' {
            (line + 1, 1)
        } else {
            (line, column + 1)
        }
    }
}

/// Lines and columns are counted from 1.
pub proof fn lemma_place_positive(input: Seq<char>, pos: int)
    ensures
        place(input, pos).0 >= 1,
        place(input, pos).1 >= 1,
    decreases pos,
{
    if !(pos <= 0 || pos > input.len()) {
        lemma_place_positive(input, pos - 1);
    }
}

/// A count as it is kept: it stays at the largest number that can be
/// counted.
pub open spec fn kept(n: int) -> usize {
    if n <= usize::MAX {
        n as usize
    } else {
        usize::MAX
    }
}

/// The kinds of some tokens.
pub open spec fn kinds(tokens: Seq<Token>) -> Seq<TokenModel> {
    Seq::new(tokens.len(), |i: int| tokens[i].token_type@)
}

/// The line and the column of each of some tokens.
pub open spec fn places(tokens: Seq<Token>) -> Seq<(usize, usize)> {
    Seq::new(tokens.len(), |i: int| (tokens[i].line, tokens[i].column))
}

/// The line and the column, as they are kept, of the first character of
/// each token of the text from `pos` on.
pub open spec fn token_places(input: Seq<char>, pos: int) -> Seq<(usize, usize)>
    decreases input.len() - pos,
{
    let (token, after) = next(input, pos);
    if token is EOF || after <= pos || after > input.len() {
        Seq::<(usize, usize)>::empty()
    } else {
        seq![
            (
                kept(place(input, blank_end(input, pos)).0),
                kept(place(input, blank_end(input, pos)).1),
            ),
        ] + token_places(input, after)
    }
}

/// The stop of a search lies between its start and the end of the text,
/// no character before it satisfies the predicate, and the character at
/// it does.
pub proof fn lemma_stop(input: Seq<char>, from: int, p: spec_fn(char) -> bool)
    requires
        0 <= from <= input.len(),
    ensures
        from <= stop(input, from, p) <= input.len(),
        forall|i: int| from <= i < stop(input, from, p) ==> !p(#[trigger] input[i]),
        stop(input, from, p) < input.len() ==> p(input[stop(input, from, p)]),
{
    let rest = input.skip(from);
    lemma_first_index(rest, p);
    assert forall|i: int| from <= i < stop(input, from, p) implies !p(#[trigger] input[i]) by {
        assert(input[i] == rest[i - from]);
    }
    if stop(input, from, p) < input.len() {
        assert(input[stop(input, from, p)] == rest[first_index(rest, p)]);
    }
}

/// A position before which no character satisfies the predicate, and
/// which ends the text or holds a character that does, is the stop.
pub proof fn lemma_stop_is(input: Seq<char>, from: int, p: spec_fn(char) -> bool, end: int)
    requires
        0 <= from <= end <= input.len(),
        forall|i: int| from <= i < end ==> !p(#[trigger] input[i]),
        end < input.len() ==> p(input[end]),
    ensures
        stop(input, from, p) == end,
{
    let rest = input.skip(from);
    assert forall|i: int| 0 <= i < end - from implies !p(#[trigger] rest[i]) by {
        assert(rest[i] == input[from + i]);
    }
    if end < input.len() {
        assert(rest[end - from] == input[end]);
    }
    lemma_first_index_is(rest, p, end - from);
}

/// The value of digits is at least the value of each of their prefixes.
pub proof fn lemma_decimal_value_grows(digits: Seq<char>, n: int)
    requires
        0 <= n <= digits.len(),
        forall|i: int| 0 <= i < digits.len() ==> is_digit(#[trigger] digits[i]),
    ensures
        decimal_value(digits.take(n)) <= decimal_value(digits),
    decreases digits.len() - n,
{
    if n < digits.len() {
        lemma_decimal_value_grows(digits, n + 1);
        let next = digits.take(n + 1);
        assert(next.drop_last() == digits.take(n));
        assert(is_digit(digits[n]));
        assert(next.last() == digits[n]);
    } else {
        assert(digits.take(n) == digits);
    }
}

/// A text without decimal points whose characters are digits or decimal
/// points holds digits only.
pub proof fn lemma_no_points(text: Seq<char>)
    requires
        points(text) == 0,
        forall|i: int| 0 <= i < text.len() ==> is_digit(#[trigger] text[i]) || text[i] == '.',
    ensures
        all_digits(text),
    decreases text.len(),
{
    if text.len() > 0 {
        let front = text.drop_last();
        assert forall|i: int| 0 <= i < front.len() implies is_digit(#[trigger] front[i])
            || front[i] == '.' by {
            assert(front[i] == text[i]);
        }
        lemma_no_points(front);
        assert forall|i: int| 0 <= i < text.len() implies is_digit(#[trigger] text[i]) by {
            if i < front.len() {
                assert(text[i] == front[i]);
            }
        }
    }
}

fn space(c: char) -> (r: bool)
    ensures
        r == is_space(c),
{
    c == ' ' || c == '\t' || c == '\n' || c == '\r'
}

fn digit(c: char) -> (r: bool)
    ensures
        r == is_digit(c),
{
    '0' <= c && c <= '9'
}

fn identifier_start(c: char) -> (r: bool)
    ensures
        r == is_identifier_start(c),
{
    ('a' <= c && c <= 'z') || ('A' <= c && c <= 'Z') || c == '_'
}

fn identifier_part(c: char) -> (r: bool)
    ensures
        r == is_identifier_part(c),
{
    identifier_start(c) || digit(c)
}

/// Whether the characters spell `word`.
pub fn spells(chars: &Vec<char>, word: &str) -> (r: bool)
    ensures
        r == (chars@ == word@),
{
    let other = chars_of(word);
    if chars.len() != other.len() {
        return false;
    }
    let mut i: usize = 0;
    while i < chars.len()
        invariant
            i <= chars@.len(),
            chars@.len() == other@.len(),
            other@ == word@,
            forall|j: int| 0 <= j < i ==> chars@[j] == other@[j],
        decreases chars@.len() - i,
    {
        if chars[i] != other[i] {
            assert(chars@[i as int] != word@[i as int]);
            return false;
        }
        i += 1;
    }
    assert(chars@ =~= other@);
    true
}

/// The keyword that the characters spell, or the identifier that they
/// are.
pub fn word(chars: &Vec<char>) -> (r: TokenType)
    ensures
        r@ == word_token(chars@),
{
    if spells(chars, "let") {
        TokenType::Let
    } else if spells(chars, "fn") {
        TokenType::Fn
    } else if spells(chars, "return") {
        TokenType::Return
    } else if spells(chars, "if") {
        TokenType::If
    } else if spells(chars, "else") {
        TokenType::Else
    } else if spells(chars, "while") {
        TokenType::While
    } else if spells(chars, "for") {
        TokenType::For
    } else if spells(chars, "struct") {
        TokenType::Struct
    } else if spells(chars, "enum") {
        TokenType::Enum
    } else if spells(chars, "match") {
        TokenType::Match
    } else if spells(chars, "async") {
        TokenType::Async
    } else if spells(chars, "await") {
        TokenType::Await
    } else if spells(chars, "move") {
        TokenType::Move
    } else if spells(chars, "own") {
        TokenType::Own
    } else if spells(chars, "ref") {
        TokenType::Ref
    } else {
        TokenType::Identifier(string_from_chars(chars))
    }
}

/// The value of a run of decimal digits, if they are digits and it fits.
pub fn parse_integer(digits: &Vec<char>) -> (r: Option<i64>)
    ensures
        r is Some <==> all_digits(digits@) && decimal_value(digits@) <= i64::MAX,
        r is Some ==> r->0 == decimal_value(digits@),
{
    let mut value: i64 = 0;
    let mut i: usize = 0;
    assert(digits@.take(0) =~= Seq::<char>::empty());
    while i < digits.len()
        invariant
            i <= digits@.len(),
            forall|k: int| 0 <= k < i ==> is_digit(#[trigger] digits@[k]),
            0 <= value,
            value == decimal_value(digits@.take(i as int)),
        decreases digits@.len() - i,
    {
        if !digit(digits[i]) {
            return None;
        }
        let d: i64 = (digits[i] as u32 - '0' as u32) as i64;
        proof {
            let next = digits@.take(i as int + 1);
            assert(next.drop_last() == digits@.take(i as int));
            assert(next.last() == digits@[i as int]);
        }
        if value > (i64::MAX - d) / 10 {
            proof {
                if all_digits(digits@) {
                    lemma_decimal_value_grows(digits@, i as int + 1);
                }
            }
            return None;
        }
        value = value * 10 + d;
        i += 1;
    }
    assert(digits@.take(digits@.len() as int) == digits@);
    Some(value)
}

/// Where a run of characters ends.
#[derive(Debug, Clone, Copy, PartialEq, Eq, Structural)]
pub enum Until {
    /// Before the next line feed.
    LineEnd,
    /// Before the next quote.
    Quote,
    /// Before the next character that cannot continue an identifier.
    WordEnd,
    /// Before the next character that cannot continue a number.
    NumberEnd,
}

/// Scans a source text into tokens.
pub struct Lexer {
    /// The characters of the source text.
    pub input: Vec<char>,
    /// Index of the next character.
    pub position: usize,
    /// Line of the next character, counted from 1.
    pub line: usize,
    /// Column of the next character, counted from 1.
    pub column: usize,
}

impl Lexer {
    /// The invariant of the scanner: it stands inside its text, and its
    /// line and column are those of its position.
    pub open spec fn wf(&self) -> bool {
        &&& self.position <= self.input@.len()
        &&& self.line == kept(place(self.input@, self.position as int).0)
        &&& self.column == kept(place(self.input@, self.position as int).1)
    }

    /// Whether `after` is this scanner moved on to `position`.
    pub open spec fn moved_to(&self, after: &Lexer, position: int) -> bool {
        &&& after.wf()
        &&& after.input == self.input
        &&& after.position == position
    }

    pub fn new(input: &str) -> (lexer: Self)
        ensures
            lexer.wf(),
            lexer.input@ == input@,
            lexer.position == 0,
            lexer.line == 1,
            lexer.column == 1,
    {
        Lexer { input: chars_of(input), position: 0, line: 1, column: 1 }
    }

    /// Takes the next character.  A line feed starts a new line at column
    /// 1, any other character moves one column on.  Line and column stay
    /// at the largest number that can be counted.
    pub fn advance(&mut self) -> (c: Option<char>)
        requires
            old(self).wf(),
        ensures
            final(self).wf(),
            final(self).input == old(self).input,
            old(self).position < old(self).input@.len() ==> c == Some(
                old(self).input@[old(self).position as int],
            ) && final(self).position == old(self).position + 1,
            old(self).position == old(self).input@.len() ==> c is None && final(self).position
                == old(self).position,
    {
        if self.position >= self.input.len() {
            return None;
        }
        let ch = self.input[self.position];
        proof {
            let input = self.input@;
            let p = self.position as int;
            let (line, column) = place(input, p);
            lemma_place_positive(input, p);
            assert(place(input, p + 1) == if input[p] == '\n' {
                (line + 1, 1int)
            } else {
                (line, column + 1)
            });
        }
        self.position += 1;
        if ch == '\n' {
            if self.line < usize::MAX {
                self.line += 1;
            }
            self.column = 1;
        } else if self.column < usize::MAX {
            self.column += 1;
        }
        Some(ch)
    }

    /// The next character, which stays where it is.
    pub fn peek(&self) -> (c: Option<char>)
        requires
            self.wf(),
        ensures
            c == if self.position < self.input@.len() {
                Some(self.input@[self.position as int])
            } else {
                None
            },
    {
        if self.position < self.input.len() {
            Some(self.input[self.position])
        } else {
            None
        }
    }

    /// The character after the next one.
    fn peek_second(&self) -> (c: Option<char>)
        requires
            self.wf(),
        ensures
            c == if self.position + 1 < self.input@.len() {
                Some(self.input@[self.position + 1])
            } else {
                None
            },
    {
        if self.position < self.input.len() && self.position + 1 < self.input.len() {
            Some(self.input[self.position + 1])
        } else {
            None
        }
    }

    /// Takes the characters of a run, up to where it ends.
    fn take_until(&mut self, which: Until) -> (taken: Vec<char>)
        requires
            old(self).wf(),
        ensures
            old(self).moved_to(
                final(self),
                stop(old(self).input@, old(self).position as int, Self::predicate(which)),
            ),
            taken@ == old(self).input@.subrange(
                old(self).position as int,
                final(self).position as int,
            ),
            old(self).position <= final(self).position <= old(self).input@.len(),
            forall|i: int|
                old(self).position <= i < final(self).position ==> !Self::predicate(which)(
                    #[trigger] old(self).input@[i],
                ),
    {
        let mut taken: Vec<char> = Vec::new();
        assert(old(self).input@.subrange(old(self).position as int, old(self).position as int)
            =~= Seq::<char>::empty());
        while self.position < self.input.len() && !Self::satisfies(
            which,
            self.input[self.position],
        )
            invariant
                self.wf(),
                self.input == old(self).input,
                old(self).position <= self.position <= self.input@.len(),
                taken@ == old(self).input@.subrange(
                    old(self).position as int,
                    self.position as int,
                ),
                forall|i: int|
                    old(self).position <= i < self.position ==> !Self::predicate(which)(
                        #[trigger] self.input@[i],
                    ),
            decreases self.input@.len() - self.position,
        {
            let ghost before = self.position as int;
            taken.push(self.input[self.position]);
            self.advance();
            assert(old(self).input@.subrange(old(self).position as int, before + 1) == old(self).input@.subrange(old(self).position as int, before).push(old(self).input@[before]));
        }
        proof {
            lemma_stop_is(
                self.input@,
                old(self).position as int,
                Self::predicate(which),
                self.position as int,
            );
        }
        taken
    }

    /// What ends a run: the characters that stand at its end.
    pub open spec fn predicate(which: Until) -> spec_fn(char) -> bool {
        match which {
            Until::LineEnd => line_feed(),
            Until::Quote => quote(),
            Until::WordEnd => no_identifier_part(),
            Until::NumberEnd => no_number_part(),
        }
    }

    /// Whether a character stands at the end of a run.
    fn satisfies(which: Until, c: char) -> (r: bool)
        ensures
            r == Self::predicate(which)(c),
    {
        match which {
            Until::LineEnd => c == '\n',
            Until::Quote => c == '"',
            Until::WordEnd => !identifier_part(c),
            Until::NumberEnd => !(digit(c) || c == '.'),
        }
    }

    /// Passes over blanks, tabs, line ends and comments, which run from two
    /// slashes to the end of their line.
    pub fn skip_whitespace(&mut self)
        requires
            old(self).wf(),
        ensures
            old(self).moved_to(final(self), blank_end(old(self).input@, old(self).position as int)),
            old(self).position <= final(self).position <= old(self).input@.len(),
    {
        loop
            invariant
                self.wf(),
                self.input == old(self).input,
                old(self).position <= self.position <= self.input@.len(),
                blank_end(self.input@, self.position as int) == blank_end(
                    old(self).input@,
                    old(self).position as int,
                ),
            decreases self.input@.len() - self.position,
        {
            match self.peek() {
                Some(c) => {
                    if space(c) {
                        self.advance();
                    } else if c == '/' && self.peek_second() == Some('/') {
                        let ghost start = self.position as int;
                        self.advance();
                        self.advance();
                        let _ = self.take_until(Until::LineEnd);
                        proof {
                            lemma_stop(self.input@, start + 2, line_feed());
                        }
                    } else {
                        return ;
                    }
                },
                None => {
                    return ;
                },
            }
        }
    }

    /// Reads the rest of an identifier that starts with `first_char`.
    pub fn read_identifier(&mut self, first_char: char) -> (identifier: Vec<char>)
        requires
            old(self).wf(),
        ensures
            old(self).moved_to(
                final(self),
                stop(old(self).input@, old(self).position as int, no_identifier_part()),
            ),
            identifier@ == seq![first_char] + old(self).input@.subrange(
                old(self).position as int,
                final(self).position as int,
            ),
            old(self).position <= final(self).position <= old(self).input@.len(),
    {
        let mut identifier: Vec<char> = Vec::new();
        identifier.push(first_char);
        let rest = self.take_until(Until::WordEnd);
        let mut i: usize = 0;
        while i < rest.len()
            invariant
                i <= rest@.len(),
                identifier@ == seq![first_char] + rest@.take(i as int),
            decreases rest@.len() - i,
        {
            identifier.push(rest[i]);
            assert(rest@.take(i as int + 1) == rest@.take(i as int).push(rest@[i as int]));
            i += 1;
        }
        assert(rest@.take(rest@.len() as int) == rest@);
        identifier
    }

    /// Counts the decimal points of a text.
    fn count_points(text: &Vec<char>) -> (n: usize)
        ensures
            n == points(text@),
    {
        let mut n: usize = 0;
        let mut i: usize = 0;
        assert(text@.take(0) =~= Seq::<char>::empty());
        while i < text.len()
            invariant
                i <= text@.len(),
                n <= i,
                n == points(text@.take(i as int)),
            decreases text@.len() - i,
        {
            proof {
                let next = text@.take(i as int + 1);
                assert(next.drop_last() == text@.take(i as int));
                assert(next.last() == text@[i as int]);
            }
            if text[i] == '.' {
                n += 1;
            }
            i += 1;
        }
        assert(text@.take(text@.len() as int) == text@);
        n
    }

    /// Reads the rest of a number that starts with the digit `first_char`:
    /// digits, among them at most one decimal point.
    fn read_number(&mut self, first_char: char) -> (token: TokenType)
        requires
            old(self).wf(),
            is_digit(first_char),
        ensures
            old(self).moved_to(
                final(self),
                stop(old(self).input@, old(self).position as int, no_number_part()),
            ),
            old(self).position <= final(self).position <= old(self).input@.len(),
            token@ == number_token(
                seq![first_char] + old(self).input@.subrange(
                    old(self).position as int,
                    final(self).position as int,
                ),
            ),
    {
        let mut number: Vec<char> = Vec::new();
        number.push(first_char);
        let rest = self.take_until(Until::NumberEnd);
        let mut i: usize = 0;
        while i < rest.len()
            invariant
                i <= rest@.len(),
                number@ == seq![first_char] + rest@.take(i as int),
            decreases rest@.len() - i,
        {
            number.push(rest[i]);
            assert(rest@.take(i as int + 1) == rest@.take(i as int).push(rest@[i as int]));
            i += 1;
        }
        assert(rest@.take(rest@.len() as int) == rest@);
        let dots = Self::count_points(&number);
        if dots == 0 {
            proof {
                assert forall|k: int| 0 <= k < number@.len() implies is_digit(
                    #[trigger] number@[k],
                ) || number@[k] == '.' by {
                    if k > 0 {
                        assert(number@[k] == rest@[k - 1]);
                        assert(rest@[k - 1] == old(self).input@[old(self).position + k - 1]);
                    }
                }
                lemma_no_points(number@);
            }
            match parse_integer(&number) {
                Some(value) => TokenType::Integer(value),
                None => TokenType::Malformed(string_from_chars(&number)),
            }
        } else if dots == 1 {
            TokenType::Float(string_from_chars(&number))
        } else {
            TokenType::Malformed(string_from_chars(&number))
        }
    }

    /// Reads a string up to its closing quote; the opening quote has been
    /// taken.
    fn read_string(&mut self) -> (token: TokenType)
        requires
            old(self).wf(),
        ensures
            ({
                let input = old(self).input@;
                let end = stop(input, old(self).position as int, quote());
                if end < input.len() {
                    old(self).moved_to(final(self), end + 1) && token@ == TokenModel::String(
                        input.subrange(old(self).position as int, end),
                    )
                } else {
                    old(self).moved_to(final(self), end) && token@ == TokenModel::Malformed(
                        input.subrange(old(self).position as int, input.len() as int),
                    )
                }
            }),
            old(self).position <= final(self).position <= old(self).input@.len(),
    {
        let text = self.take_until(Until::Quote);
        if self.position < self.input.len() {
            self.advance();
            TokenType::String(string_from_chars(&text))
        } else {
            TokenType::Malformed(string_from_chars(&text))
        }
    }

    /// Takes the next character where it is `expected`.
    fn take_if(&mut self, expected: char) -> (taken: bool)
        requires
            old(self).wf(),
        ensures
            taken == (old(self).position < old(self).input@.len() && old(self).input@[old(self).position as int] == expected),
            old(self).moved_to(
                final(self),
                if taken {
                    old(self).position + 1
                } else {
                    old(self).position as int
                },
            ),
    {
        if self.peek() == Some(expected) {
            self.advance();
            true
        } else {
            false
        }
    }

    /// The next token: the token after the blanks and comments at which
    /// the scanner stands, with the line and the column of its first
    /// character.  At the end of the text this is `EOF`, again and again;
    /// any other token takes at least one character.
    pub fn next_token(&mut self) -> (token: Token)
        requires
            old(self).wf(),
        ensures
            old(self).moved_to(final(self), next(old(self).input@, old(self).position as int).1),
            token.token_type@ == next(old(self).input@, old(self).position as int).0,
            token.line == kept(
                place(
                    old(self).input@,
                    blank_end(old(self).input@, old(self).position as int),
                ).0,
            ),
            token.column == kept(
                place(
                    old(self).input@,
                    blank_end(old(self).input@, old(self).position as int),
                ).1,
            ),
            token.token_type is EOF ==> final(self).position == final(self).input@.len(),
            !(token.token_type is EOF) ==> final(self).position > old(self).position,
            final(self).position <= final(self).input@.len(),
    {
        self.skip_whitespace();
        let current_line = self.line;
        let current_column = self.column;
        let ghost start = self.position as int;
        let ghost input = self.input@;
        let token_type = match self.advance() {
            None => TokenType::EOF,
            Some(c) => {
                if c == '(' {
                    TokenType::LeftParen
                } else if c == ')' {
                    TokenType::RightParen
                } else if c == '{' {
                    TokenType::LeftBrace
                } else if c == '}' {
                    TokenType::RightBrace
                } else if c == '[' {
                    TokenType::LeftBracket
                } else if c == ']' {
                    TokenType::RightBracket
                } else if c == ';' {
                    TokenType::Semicolon
                } else if c == ':' {
                    TokenType::Colon
                } else if c == ',' {
                    TokenType::Comma
                } else if c == '+' {
                    TokenType::Plus
                } else if c == '-' {
                    if self.take_if('>') {
                        TokenType::Arrow
                    } else {
                        TokenType::Minus
                    }
                } else if c == '*' {
                    TokenType::Multiply
                } else if c == '/' {
                    TokenType::Divide
                } else if c == '=' {
                    if self.take_if('=') {
                        TokenType::Equal
                    } else {
                        TokenType::Assign
                    }
                } else if c == '!' {
                    if self.take_if('=') {
                        TokenType::NotEqual
                    } else {
                        TokenType::Unexpected(c)
                    }
                } else if c == '<' {
                    if self.take_if('=') {
                        TokenType::LessEqual
                    } else {
                        TokenType::Less
                    }
                } else if c == '>' {
                    if self.take_if('=') {
                        TokenType::GreaterEqual
                    } else {
                        TokenType::Greater
                    }
                } else if c == '"' {
                    proof {
                        lemma_stop(input, start + 1, quote());
                    }
                    self.read_string()
                } else if identifier_start(c) {
                    let identifier = self.read_identifier(c);
                    proof {
                        lemma_stop(input, start + 1, no_identifier_part());
                        assert(identifier@ =~= input.subrange(start, self.position as int));
                    }
                    word(&identifier)
                } else if digit(c) {
                    let token = self.read_number(c);
                    proof {
                        lemma_stop(input, start + 1, no_number_part());
                        assert(seq![c] + input.subrange(start + 1, self.position as int)
                            =~= input.subrange(start, self.position as int));
                    }
                    token
                } else {
                    TokenType::Unexpected(c)
                }
            },
        };
        Token { token_type, line: current_line, column: current_column }
    }

    /// The tokens of the rest of the text, without the closing `EOF`,
    /// each with the line and the column of its first character.
    pub fn tokenize(&mut self) -> (tokens: Vec<Token>)
        requires
            old(self).wf(),
        ensures
            final(self).wf(),
            final(self).input == old(self).input,
            final(self).position == final(self).input@.len(),
            kinds(tokens@) == token_stream(old(self).input@, old(self).position as int),
            places(tokens@) == token_places(old(self).input@, old(self).position as int),
            forall|i: int| 0 <= i < tokens@.len() ==> !((#[trigger] tokens@[i]).token_type is EOF),
    {
        let mut tokens: Vec<Token> = Vec::new();
        assert(kinds(tokens@) =~= Seq::<TokenModel>::empty());
        assert(places(tokens@) =~= Seq::<(usize, usize)>::empty());
        loop
            invariant
                self.wf(),
                self.input == old(self).input,
                kinds(tokens@) + token_stream(self.input@, self.position as int) == token_stream(
                    old(self).input@,
                    old(self).position as int,
                ),
                places(tokens@) + token_places(self.input@, self.position as int) == token_places(
                    old(self).input@,
                    old(self).position as int,
                ),
                forall|i: int|
                    0 <= i < tokens@.len() ==> !((#[trigger] tokens@[i]).token_type is EOF),
            decreases self.input@.len() - self.position,
        {
            let ghost before = kinds(tokens@);
            let ghost seen = places(tokens@);
            let token = self.next_token();
            match token.token_type {
                TokenType::EOF => {
                    assert(before + Seq::<TokenModel>::empty() =~= before);
                    assert(seen + Seq::<(usize, usize)>::empty() =~= seen);
                    return tokens;
                },
                _ => {
                    proof {
                        let rest = token_stream(self.input@, self.position as int);
                        assert(kinds(tokens@.push(token)) =~= before.push(token.token_type@));
                        assert(before + (seq![token.token_type@] + rest) =~= before.push(
                            token.token_type@,
                        ) + rest);
                        let ahead = token_places(self.input@, self.position as int);
                        let here = (token.line, token.column);
                        assert(places(tokens@.push(token)) =~= seen.push(here));
                        assert(seen + (seq![here] + ahead) =~= seen.push(here) + ahead);
                    }
                    tokens.push(token);
                },
            }
        }
    }
}

} // verus!
