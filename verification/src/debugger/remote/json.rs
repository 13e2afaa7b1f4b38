//! The structured form of a message, and its text on the wire: compact
//! JSON with the members of an object in a fixed order.
use crate::text::string_from_utf8;
use vstd::prelude::*;
use vstd::utf8::{decode_utf8, encode_utf8, valid_utf8};

verus! {

/// A structured value.
#[derive(Debug)]
pub enum Json {
    Null,
    Bool(bool),
    Number(u64),
    Text(String),
    Array(Vec<Json>),
    Object(Vec<(String, Json)>),
}

/// A structured value, as a mathematical value.
pub enum JsonModel {
    Null,
    Bool(bool),
    Number(u64),
    Text(Seq<char>),
    Array(Seq<JsonModel>),
    Object(Seq<(Seq<char>, JsonModel)>),
}

/// The mathematical value of a structured value.
pub open spec fn model_of(j: Json) -> JsonModel
    decreases j, 0nat,
{
    match j {
        Json::Null => JsonModel::Null,
        Json::Bool(b) => JsonModel::Bool(b),
        Json::Number(n) => JsonModel::Number(n),
        Json::Text(s) => JsonModel::Text(s@),
        Json::Array(items) => JsonModel::Array(models_of(items@, items@.len() as int)),
        Json::Object(members) => JsonModel::Object(
            member_models_of(members@, members@.len() as int),
        ),
    }
}

/// The mathematical values of the first `n` of some structured values.
pub open spec fn models_of(items: Seq<Json>, n: int) -> Seq<JsonModel>
    decreases items, n,
{
    if 0 < n <= items.len() {
        models_of(items, n - 1).push(model_of(items[n - 1]))
    } else {
        Seq::<JsonModel>::empty()
    }
}

/// The mathematical values of the first `n` members of an object.
pub open spec fn member_models_of(members: Seq<(String, Json)>, n: int) -> Seq<
    (Seq<char>, JsonModel),
>
    decreases members, n,
{
    if 0 < n <= members.len() {
        member_models_of(members, n - 1).push((members[n - 1].0@, model_of(members[n - 1].1)))
    } else {
        Seq::<(Seq<char>, JsonModel)>::empty()
    }
}

/// `models_of` has one value for each of the first `n` items.
pub proof fn lemma_models_of(items: Seq<Json>, n: int)
    requires
        0 <= n <= items.len(),
    ensures
        models_of(items, n).len() == n,
        forall|i: int| 0 <= i < n ==> #[trigger] models_of(items, n)[i] == model_of(items[i]),
    decreases n,
{
    if n > 0 {
        lemma_models_of(items, n - 1);
    }
}

/// `member_models_of` has one member for each of the first `n` members.
pub proof fn lemma_member_models_of(members: Seq<(String, Json)>, n: int)
    requires
        0 <= n <= members.len(),
    ensures
        member_models_of(members, n).len() == n,
        forall|i: int|
            0 <= i < n ==> #[trigger] member_models_of(members, n)[i] == (
                members[i].0@,
                model_of(members[i].1),
            ),
    decreases n,
{
    if n > 0 {
        lemma_member_models_of(members, n - 1);
    }
}

impl View for Json {
    type V = JsonModel;

    open spec fn view(&self) -> JsonModel {
        model_of(*self)
    }
}

/// Whether a byte is a decimal digit.
pub open spec fn is_digit_byte(b: u8) -> bool {
    0x30 <= b <= 0x39
}

/// A number in decimal digits, without leading zeros.
pub open spec fn decimal_bytes(n: nat) -> Seq<u8>
    decreases n,
{
    if n < 10 {
        seq![(0x30 + n) as u8]
    } else {
        decimal_bytes(n / 10).push((0x30 + n % 10) as u8)
    }
}

/// The number that decimal digits stand for.
pub open spec fn digits_value(digits: Seq<u8>) -> nat
    decreases digits.len(),
{
    if digits.len() == 0 {
        0
    } else {
        (digits_value(digits.drop_last()) * 10 + (digits.last() - 0x30)) as nat
    }
}

/// Number of leading bytes that are digits.
pub open spec fn digit_run(input: Seq<u8>) -> int
    decreases input.len(),
{
    if input.len() == 0 || !is_digit_byte(input[0]) {
        0
    } else {
        1 + digit_run(input.drop_first())
    }
}

/// The lower-case hexadecimal digit of a value below sixteen.
pub open spec fn hex_byte(n: int) -> u8 {
    if n < 10 {
        (0x30 + n) as u8
    } else {
        (0x61 + n - 10) as u8
    }
}

/// The value of a lower-case hexadecimal digit, or -1.
pub open spec fn hex_value(b: u8) -> int {
    if 0x30 <= b <= 0x39 {
        b - 0x30
    } else if 0x61 <= b <= 0x66 {
        b - 0x61 + 10
    } else {
        -1
    }
}

/// One byte of a string as it stands between quotes: a quote and a
/// backslash after a backslash, a control character as its short escape
/// or as `\u00` and two hexadecimal digits, any other byte as it is.
pub open spec fn escaped_byte(b: u8) -> Seq<u8> {
    if b == 0x22 {
        seq![0x5cu8, 0x22u8]
    } else if b == 0x5c {
        seq![0x5cu8, 0x5cu8]
    } else if b == 0x08 {
        seq![0x5cu8, 0x62u8]
    } else if b == 0x09 {
        seq![0x5cu8, 0x74u8]
    } else if b == 0x0a {
        seq![0x5cu8, 0x6eu8]
    } else if b == 0x0c {
        seq![0x5cu8, 0x66u8]
    } else if b == 0x0d {
        seq![0x5cu8, 0x72u8]
    } else if b < 0x20 {
        seq![0x5cu8, 0x75u8, 0x30u8, 0x30u8, hex_byte(b as int / 16), hex_byte(b as int % 16)]
    } else {
        seq![b]
    }
}

/// The bytes of a string as they stand between quotes.
pub open spec fn escaped(bytes: Seq<u8>) -> Seq<u8>
    decreases bytes.len(),
{
    if bytes.len() == 0 {
        Seq::<u8>::empty()
    } else {
        escaped_byte(bytes[0]) + escaped(bytes.drop_first())
    }
}

/// The bytes of a text: its UTF-8 encoding.
#[verifier::opaque]
pub open spec fn utf8(text: Seq<char>) -> Seq<u8> {
    encode_utf8(text)
}

/// The text that bytes encode, where they are UTF-8.
#[verifier::opaque]
pub open spec fn text_of(bytes: Seq<u8>) -> Option<Seq<char>> {
    if valid_utf8(bytes) {
        Some(decode_utf8(bytes))
    } else {
        None
    }
}

/// A text is read back from its bytes.
pub proof fn lemma_utf8_round_trip(text: Seq<char>)
    ensures
        text_of(utf8(text)) == Some(text),
{
    reveal(utf8);
    reveal(text_of);
    vstd::utf8::encode_utf8_valid_utf8(text);
    vstd::utf8::encode_utf8_decode_utf8(text);
}

/// A string between quotes.
pub open spec fn quoted(text: Seq<char>) -> Seq<u8> {
    seq![0x22u8] + escaped(utf8(text)) + seq![0x22u8]
}

/// The text `null`.
pub open spec fn null_text() -> Seq<u8> {
    seq![0x6eu8, 0x75u8, 0x6cu8, 0x6cu8]
}

/// The text `true`.
pub open spec fn true_text() -> Seq<u8> {
    seq![0x74u8, 0x72u8, 0x75u8, 0x65u8]
}

/// The text `false`.
pub open spec fn false_text() -> Seq<u8> {
    seq![0x66u8, 0x61u8, 0x6cu8, 0x73u8, 0x65u8]
}

/// The text of a structured value: compact, the members of an object in
/// their order.
pub open spec fn json_text(j: JsonModel) -> Seq<u8>
    decreases j, 0nat,
{
    match j {
        JsonModel::Null => null_text(),
        JsonModel::Bool(b) => if b {
            true_text()
        } else {
            false_text()
        },
        JsonModel::Number(n) => decimal_bytes(n as nat),
        JsonModel::Text(s) => quoted(s),
        JsonModel::Array(items) => seq![0x5bu8] + items_text(items, 0),
        JsonModel::Object(members) => seq![0x7bu8] + members_text(members, 0),
    }
}

/// The items of an array from index `from` on, with commas between them,
/// and the closing bracket.
pub open spec fn items_text(items: Seq<JsonModel>, from: int) -> Seq<u8>
    decreases items, items.len() - from,
{
    if 0 <= from < items.len() {
        (if from > 0 {
            seq![0x2cu8]
        } else {
            Seq::<u8>::empty()
        }) + json_text(items[from]) + items_text(items, from + 1)
    } else {
        seq![0x5du8]
    }
}

/// The members of an object from index `from` on, each a name between
/// quotes, a colon and a value, with commas between them, and the closing
/// brace.
pub open spec fn members_text(members: Seq<(Seq<char>, JsonModel)>, from: int) -> Seq<u8>
    decreases members, members.len() - from,
{
    if 0 <= from < members.len() {
        (if from > 0 {
            seq![0x2cu8]
        } else {
            Seq::<u8>::empty()
        }) + quoted(members[from].0) + seq![0x3au8] + json_text(members[from].1) + members_text(
            members,
            from + 1,
        )
    } else {
        seq![0x7du8]
    }
}

/// What the start of a text between quotes holds, after the opening
/// quote: the bytes of the string, and the number of bytes of text up to
/// and with the closing quote.
pub open spec fn parse_string(input: Seq<u8>) -> Option<(Seq<u8>, int)>
    decreases input.len(),
{
    if input.len() == 0 {
        None
    } else if input[0] == 0x22 {
        Some((Seq::<u8>::empty(), 1))
    } else {
        match parse_byte(input) {
            Some((b, used)) => if 0 < used <= input.len() {
                match parse_string(input.skip(used)) {
                    Some((rest, more)) => Some((seq![b] + rest, used + more)),
                    None => None,
                }
            } else {
                None
            },
            None => None,
        }
    }
}

/// The byte that the start of a text between quotes holds, which is no
/// closing quote, and the number of bytes of text that it takes.
pub open spec fn parse_byte(input: Seq<u8>) -> Option<(u8, int)> {
    if input.len() == 0 {
        None
    } else if input[0] == 0x5c {
        if input.len() < 2 {
            None
        } else if input[1] == 0x22 {
            Some((0x22u8, 2))
        } else if input[1] == 0x5c {
            Some((0x5cu8, 2))
        } else if input[1] == 0x62 {
            Some((0x08u8, 2))
        } else if input[1] == 0x74 {
            Some((0x09u8, 2))
        } else if input[1] == 0x6e {
            Some((0x0au8, 2))
        } else if input[1] == 0x66 {
            Some((0x0cu8, 2))
        } else if input[1] == 0x72 {
            Some((0x0du8, 2))
        } else if input[1] == 0x75 && input.len() >= 6 && input[2] == 0x30 && input[3] == 0x30
            && 0 <= hex_value(input[4]) < 8 && hex_value(input[5]) >= 0 {
            Some(((hex_value(input[4]) * 16 + hex_value(input[5])) as u8, 6))
        } else {
            None
        }
    } else if input[0] < 0x20 || input[0] == 0x22 {
        None
    } else {
        Some((input[0], 1))
    }
}

/// What the start of a text holds: a structured value, and the number of
/// bytes that its text takes.
pub open spec fn parse_value(input: Seq<u8>) -> Option<(JsonModel, int)>
    decreases input.len(), 2nat,
{
    if input.len() == 0 {
        None
    } else if input[0] == 0x6e {
        if input.len() >= 4 && input.take(4) == null_text() {
            Some((JsonModel::Null, 4))
        } else {
            None
        }
    } else if input[0] == 0x74 {
        if input.len() >= 4 && input.take(4) == true_text() {
            Some((JsonModel::Bool(true), 4))
        } else {
            None
        }
    } else if input[0] == 0x66 {
        if input.len() >= 5 && input.take(5) == false_text() {
            Some((JsonModel::Bool(false), 5))
        } else {
            None
        }
    } else if is_digit_byte(input[0]) {
        let run = digit_run(input);
        if digits_value(input.take(run)) <= u64::MAX {
            Some((JsonModel::Number(digits_value(input.take(run)) as u64), run))
        } else {
            None
        }
    } else if input[0] == 0x22 {
        match parse_string(input.skip(1)) {
            Some((bytes, used)) => match text_of(bytes) {
                Some(text) => Some((JsonModel::Text(text), 1 + used)),
                None => None,
            },
            None => None,
        }
    } else if input[0] == 0x5b {
        match parse_items(input.skip(1), true) {
            Some((items, used)) => Some((JsonModel::Array(items), 1 + used)),
            None => None,
        }
    } else if input[0] == 0x7b {
        match parse_members(input.skip(1), true) {
            Some((members, used)) => Some((JsonModel::Object(members), 1 + used)),
            None => None,
        }
    } else {
        None
    }
}

/// What the rest of an array holds: its items up to the closing bracket.
/// `first` says that no item has been read yet, so that none is awaited
/// after a comma.
pub open spec fn parse_items(input: Seq<u8>, first: bool) -> Option<(Seq<JsonModel>, int)>
    decreases input.len(), 3nat,
{
    if input.len() == 0 {
        None
    } else if input[0] == 0x5d {
        Some((Seq::<JsonModel>::empty(), 1))
    } else {
        let lead: int = if first {
            0
        } else {
            1
        };
        if !first && input[0] != 0x2c {
            None
        } else {
            match parse_value(input.skip(lead)) {
                Some((item, used)) => if 0 < used && lead + used <= input.len() {
                    match parse_items(input.skip(lead + used), false) {
                        Some((rest, more)) => Some((seq![item] + rest, lead + used + more)),
                        None => None,
                    }
                } else {
                    None
                },
                None => None,
            }
        }
    }
}

/// What the start of the rest of an object holds, which is no closing
/// brace: a member, that is a name between quotes, a colon and a value.
/// `first` says that no member has been read yet, so that no comma
/// stands before this one.
pub open spec fn parse_member(input: Seq<u8>, first: bool) -> Option<((Seq<char>, JsonModel), int)>
    decreases input.len(), 3nat,
{
    let lead: int = if first {
        1
    } else {
        2
    };
    if input.len() < lead || (!first && input[0] != 0x2c) || input[lead - 1] != 0x22 {
        None
    } else {
        match parse_string(input.skip(lead)) {
            Some((name, used)) => if text_of(name) is Some && 0 < used && lead + used
                < input.len() && input[lead + used] == 0x3a {
                match parse_value(input.skip(lead + used + 1)) {
                    Some((value, size)) => Some(((text_of(name)->0, value), lead + used + 1 + size)),
                    None => None,
                }
            } else {
                None
            },
            None => None,
        }
    }
}

/// What the rest of an object holds: its members up to the closing brace.
pub open spec fn parse_members(input: Seq<u8>, first: bool) -> Option<
    (Seq<(Seq<char>, JsonModel)>, int),
>
    decreases input.len(), 4nat,
{
    if input.len() == 0 {
        None
    } else if input[0] == 0x7d {
        Some((Seq::<(Seq<char>, JsonModel)>::empty(), 1))
    } else {
        match parse_member(input, first) {
            Some((member, used)) => if 0 < used <= input.len() {
                match parse_members(input.skip(used), false) {
                    Some((rest, more)) => Some((seq![member] + rest, used + more)),
                    None => None,
                }
            } else {
                None
            },
            None => None,
        }
    }
}

} // verus!

verus! {

/// The digits of a number are digits, and stand for the number.
pub proof fn lemma_decimal_bytes(n: nat)
    ensures
        decimal_bytes(n).len() >= 1,
        forall|i: int| 0 <= i < decimal_bytes(n).len() ==> is_digit_byte(#[trigger] decimal_bytes(n)[i]),
        digits_value(decimal_bytes(n)) == n,
    decreases n,
{
    if n < 10 {
        let d = decimal_bytes(n);
        assert(d.drop_last() =~= Seq::<u8>::empty());
        assert(digits_value(d.drop_last()) == 0);
    } else {
        lemma_decimal_bytes(n / 10);
        let d = decimal_bytes(n);
        assert(d.drop_last() =~= decimal_bytes(n / 10));
        assert(d.last() == (0x30 + n % 10) as u8);
    }
}

/// Digits that are followed by no digit are the run of digits at the
/// start of the text.
pub proof fn lemma_digit_run(digits: Seq<u8>, rest: Seq<u8>)
    requires
        forall|i: int| 0 <= i < digits.len() ==> is_digit_byte(#[trigger] digits[i]),
        rest.len() == 0 || !is_digit_byte(rest[0]),
    ensures
        digit_run(digits + rest) == digits.len(),
    decreases digits.len(),
{
    let input = digits + rest;
    if digits.len() == 0 {
        assert(input =~= rest);
    } else {
        assert(input[0] == digits[0]);
        assert(input.drop_first() =~= digits.drop_first() + rest);
        assert forall|i: int| 0 <= i < digits.drop_first().len() implies is_digit_byte(
            #[trigger] digits.drop_first()[i],
        ) by {
            assert(digits.drop_first()[i] == digits[i + 1]);
        }
        lemma_digit_run(digits.drop_first(), rest);
    }
}

/// A byte is read back from what stands for it between quotes, and what
/// stands for it does not start with a quote.
pub proof fn lemma_parse_byte(b: u8, rest: Seq<u8>)
    ensures
        escaped_byte(b).len() >= 1,
        (escaped_byte(b) + rest)[0] != 0x22,
        parse_byte(escaped_byte(b) + rest) == Some((b, escaped_byte(b).len() as int)),
{
    let input = escaped_byte(b) + rest;
    if b == 0x22 || b == 0x5c || b == 0x08 || b == 0x09 || b == 0x0a || b == 0x0c || b == 0x0d {
        assert(input[0] == 0x5c);
        assert(input[1] == escaped_byte(b)[1]);
    } else if b < 0x20 {
        assert(input[0] == 0x5c);
        assert(input[1] == 0x75);
        assert(input[2] == 0x30);
        assert(input[3] == 0x30);
        assert(input[4] == hex_byte(b as int / 16));
        assert(input[5] == hex_byte(b as int % 16));
    } else {
        assert(input[0] == b);
    }
}

/// The bytes of a string are read back from what stands for them between
/// quotes.
pub proof fn lemma_parse_string(bytes: Seq<u8>, rest: Seq<u8>)
    ensures
        parse_string(escaped(bytes) + seq![0x22u8] + rest) == Some(
            (bytes, escaped(bytes).len() as int + 1),
        ),
    decreases bytes.len(),
{
    let input = escaped(bytes) + seq![0x22u8] + rest;
    if bytes.len() == 0 {
        assert(input[0] == 0x22);
    } else {
        let head = escaped_byte(bytes[0]);
        let tail = escaped(bytes.drop_first()) + seq![0x22u8] + rest;
        assert(input =~= head + tail);
        lemma_parse_byte(bytes[0], tail);
        assert(input.skip(head.len() as int) =~= tail);
        lemma_parse_string(bytes.drop_first(), rest);
        assert(seq![bytes[0]] + bytes.drop_first() =~= bytes);
    }
}

/// The text of a value is not empty and starts with a byte that tells
/// its kind; no text starts with a closing bracket, a closing brace, a
/// comma or a colon.
pub proof fn lemma_first_byte(j: JsonModel)
    ensures
        json_text(j).len() >= 1,
        match j {
            JsonModel::Null => json_text(j)[0] == 0x6e,
            JsonModel::Bool(b) => json_text(j)[0] == if b {
                0x74u8
            } else {
                0x66u8
            },
            JsonModel::Number(_) => is_digit_byte(json_text(j)[0]),
            JsonModel::Text(_) => json_text(j)[0] == 0x22,
            JsonModel::Array(_) => json_text(j)[0] == 0x5b,
            JsonModel::Object(_) => json_text(j)[0] == 0x7b,
        },
{
    match j {
        JsonModel::Number(n) => {
            lemma_decimal_bytes(n as nat);
        },
        _ => {},
    }
}

/// The rest of an array starts with a comma or with the closing bracket:
/// with no digit.
pub proof fn lemma_items_text_first(items: Seq<JsonModel>, from: int)
    requires
        1 <= from <= items.len(),
    ensures
        items_text(items, from).len() >= 1,
        !is_digit_byte(items_text(items, from)[0]),
{
    if from < items.len() {
        let head = seq![0x2cu8];
        assert(items_text(items, from) =~= head + (json_text(items[from]) + items_text(
            items,
            from + 1,
        )));
    }
}

/// The rest of an object starts with a comma or with the closing brace:
/// with no digit.
pub proof fn lemma_members_text_first(members: Seq<(Seq<char>, JsonModel)>, from: int)
    requires
        1 <= from <= members.len(),
    ensures
        members_text(members, from).len() >= 1,
        !is_digit_byte(members_text(members, from)[0]),
{
    if from < members.len() {
        let head = seq![0x2cu8];
        assert(members_text(members, from) =~= head + (quoted(members[from].0) + seq![0x3au8]
            + json_text(members[from].1) + members_text(members, from + 1)));
        assert(members_text(members, from)[0] == 0x2c);
    }
}

/// A number is read back from its text, as long as no digit follows it.
pub proof fn lemma_parse_number(n: u64, rest: Seq<u8>)
    requires
        rest.len() == 0 || !is_digit_byte(rest[0]),
    ensures
        parse_value(decimal_bytes(n as nat) + rest) == Some(
            (JsonModel::Number(n), decimal_bytes(n as nat).len() as int),
        ),
{
    let text = decimal_bytes(n as nat);
    let input = text + rest;
    lemma_decimal_bytes(n as nat);
    lemma_digit_run(text, rest);
    assert(input[0] == text[0]);
    assert(input.take(text.len() as int) =~= text);
}

/// A string is read back from its text between quotes.
pub proof fn lemma_parse_quoted(text: Seq<char>, rest: Seq<u8>)
    ensures
        quoted(text).len() == escaped(utf8(text)).len() + 2,
        (quoted(text) + rest)[0] == 0x22,
        (quoted(text) + rest).skip(1) == escaped(utf8(text)) + seq![0x22u8] + rest,
        parse_string((quoted(text) + rest).skip(1)) == Some(
            (utf8(text), escaped(utf8(text)).len() as int + 1),
        ),
        text_of(utf8(text)) == Some(text),
{
    let bytes = utf8(text);
    let input = quoted(text) + rest;
    assert(input.skip(1) =~= escaped(bytes) + seq![0x22u8] + rest);
    lemma_parse_string(bytes, rest);
    lemma_utf8_round_trip(text);
}

/// A text value is read back from its text.
pub proof fn lemma_parse_text(text: Seq<char>, rest: Seq<u8>)
    ensures
        parse_value(quoted(text) + rest) == Some(
            (JsonModel::Text(text), quoted(text).len() as int),
        ),
{
    lemma_parse_quoted(text, rest);
}

/// `null`, `true` and `false` are read back from their texts.
pub proof fn lemma_parse_constant(j: JsonModel, rest: Seq<u8>)
    requires
        j is Null || j is Bool,
    ensures
        parse_value(json_text(j) + rest) == Some((j, json_text(j).len() as int)),
{
    let input = json_text(j) + rest;
    match j {
        JsonModel::Null => {
            assert(input[0] == 0x6e);
            assert(input.take(4) =~= null_text());
        },
        JsonModel::Bool(b) => {
            if b {
                assert(input[0] == 0x74);
                assert(input.take(4) =~= true_text());
            } else {
                assert(input[0] == 0x66);
                assert(input.take(5) =~= false_text());
            }
        },
        _ => {},
    }
}

/// A value is read back from its text, whatever follows the text, as
/// long as no digit follows it.
pub proof fn lemma_parse_value(j: JsonModel, rest: Seq<u8>)
    requires
        rest.len() == 0 || !is_digit_byte(rest[0]),
    ensures
        parse_value(json_text(j) + rest) == Some((j, json_text(j).len() as int)),
    decreases j, 0nat,
{
    match j {
        JsonModel::Null => {
            lemma_parse_constant(j, rest);
        },
        JsonModel::Bool(b) => {
            lemma_parse_constant(j, rest);
        },
        JsonModel::Number(n) => {
            lemma_parse_number(n, rest);
        },
        JsonModel::Text(s) => {
            lemma_parse_text(s, rest);
        },
        JsonModel::Array(items) => {
            let input = json_text(j) + rest;
            assert(input[0] == 0x5b);
            assert(input.skip(1) =~= items_text(items, 0) + rest);
            lemma_parse_items(items, 0, rest);
            assert(items.skip(0) =~= items);
        },
        JsonModel::Object(members) => {
            let input = json_text(j) + rest;
            assert(input[0] == 0x7b);
            assert(input.skip(1) =~= members_text(members, 0) + rest);
            lemma_parse_members(members, 0, rest);
            assert(members.skip(0) =~= members);
        },
    }
}

/// The items of an array from index `from` on are read back from their
/// text.
pub proof fn lemma_parse_items(items: Seq<JsonModel>, from: int, rest: Seq<u8>)
    requires
        0 <= from <= items.len(),
    ensures
        parse_items(items_text(items, from) + rest, from == 0) == Some(
            (items.skip(from), items_text(items, from).len() as int),
        ),
    decreases items, items.len() - from,
{
    let text = items_text(items, from);
    let input = text + rest;
    if from == items.len() {
        assert(input[0] == 0x5d);
        assert(items.skip(from) =~= Seq::<JsonModel>::empty());
    } else {
        let lead: int = if from == 0 {
            0
        } else {
            1
        };
        let item = items[from];
        let value = json_text(item);
        let tail = items_text(items, from + 1);
        lemma_first_byte(item);
        if from == 0 {
            assert(input =~= value + (tail + rest));
            assert(input[0] == value[0]);
        } else {
            assert(input =~= seq![0x2cu8] + (value + (tail + rest)));
            assert(input[0] == 0x2c);
        }
        assert(input.skip(lead) =~= value + (tail + rest));
        lemma_items_text_first(items, from + 1);
        assert((tail + rest)[0] == tail[0]);
        lemma_parse_value(item, tail + rest);
        assert(input.skip(lead + value.len()) =~= tail + rest);
        lemma_parse_items(items, from + 1, rest);
        assert(seq![item] + items.skip(from + 1) =~= items.skip(from));
    }
}

/// One member is read back, given that its name and its value are.
pub proof fn lemma_parse_member(
    input: Seq<u8>,
    first: bool,
    name: Seq<char>,
    value: JsonModel,
    size: int,
)
    requires
        ({
            let lead: int = if first {
                1
            } else {
                2
            };
            let used = escaped(utf8(name)).len() as int + 1;
            &&& input.len() > lead + used
            &&& input[0] == if first {
                0x22u8
            } else {
                0x2cu8
            }
            &&& input[lead - 1] == 0x22
            &&& parse_string(input.skip(lead)) == Some((utf8(name), used))
            &&& text_of(utf8(name)) == Some(name)
            &&& input[lead + used] == 0x3a
            &&& parse_value(input.skip(lead + used + 1)) == Some((value, size))
        }),
    ensures
        parse_member(input, first) == Some(
            (
                (name, value),
                (if first {
                    1int
                } else {
                    2int
                }) + escaped(utf8(name)).len() + 1 + 1 + size,
            ),
        ),
{
}

/// Where the parts of the text of a member start.
pub proof fn lemma_member_layout(
    comma: Seq<u8>,
    name: Seq<u8>,
    value: Seq<u8>,
    after: Seq<u8>,
    input: Seq<u8>,
)
    requires
        name.len() >= 2,
        input == comma + name + seq![0x3au8] + value + after,
    ensures
        ({
            let c = comma.len() as int;
            let n = name.len() as int;
            let v = value.len() as int;
            &&& input.len() == c + n + 1 + v + after.len()
            &&& forall|i: int| 0 <= i < c ==> input[i] == comma[i]
            &&& input[c] == name[0]
            &&& input.skip(c + 1) == (name + (seq![0x3au8] + (value + after))).skip(1)
            &&& input[c + n] == 0x3a
            &&& input.skip(c + n + 1) == value + after
            &&& input.skip(c + n + 1 + v) == after
        }),
{
    let c = comma.len() as int;
    let n = name.len() as int;
    let v = value.len() as int;
    assert(input.skip(c + 1) =~= (name + (seq![0x3au8] + (value + after))).skip(1));
    assert(input.skip(c + n + 1) =~= value + after);
    assert(input.skip(c + n + 1 + v) =~= after);
}

/// The text of the members from a member on is made of an optional
/// comma, the name of the member between quotes, a colon, its value, and
/// the text of the members after it.
pub proof fn lemma_members_text_parts(
    members: Seq<(Seq<char>, JsonModel)>,
    from: int,
    rest: Seq<u8>,
)
    requires
        0 <= from < members.len(),
    ensures
        members_text(members, from) + rest == (if from > 0 {
            seq![0x2cu8]
        } else {
            Seq::<u8>::empty()
        }) + quoted(members[from].0) + seq![0x3au8] + json_text(members[from].1) + (members_text(
            members,
            from + 1,
        ) + rest),
{
    let comma = if from > 0 {
        seq![0x2cu8]
    } else {
        Seq::<u8>::empty()
    };
    let q = quoted(members[from].0);
    let value = json_text(members[from].1);
    let tail = members_text(members, from + 1);
    assert(members_text(members, from) == comma + q + seq![0x3au8] + value + tail);
    assert((comma + q + seq![0x3au8] + value + tail) + rest =~= comma + q + seq![0x3au8] + value
        + (tail + rest));
}

/// What `lemma_parse_member` asks of the text of a member.
pub proof fn lemma_member_facts(
    input: Seq<u8>,
    first: bool,
    name: Seq<char>,
    value: Seq<u8>,
    after: Seq<u8>,
)
    requires
        value.len() > 0,
        input == (if first {
            Seq::<u8>::empty()
        } else {
            seq![0x2cu8]
        }) + quoted(name) + seq![0x3au8] + value + after,
    ensures
        ({
            let lead: int = if first {
                1
            } else {
                2
            };
            let used = escaped(utf8(name)).len() as int + 1;
            &&& input.len() == lead + used + 1 + value.len() + after.len()
            &&& input[0] == if first {
                0x22u8
            } else {
                0x2cu8
            }
            &&& input[lead - 1] == 0x22
            &&& parse_string(input.skip(lead)) == Some((utf8(name), used))
            &&& text_of(utf8(name)) == Some(name)
            &&& input[lead + used] == 0x3a
            &&& input.skip(lead + used + 1) == value + after
            &&& input.skip(lead + used + 1 + value.len()) == after
        }),
{
    let comma = if first {
        Seq::<u8>::empty()
    } else {
        seq![0x2cu8]
    };
    let q = quoted(name);
    lemma_parse_quoted(name, seq![0x3au8] + (value + after));
    assert(q[0] == 0x22);
    lemma_member_layout(comma, q, value, after, input);
}

/// A member and the members after it are read back from their text,
/// given that its value and the members after it are.
pub proof fn lemma_parse_members_step(members: Seq<(Seq<char>, JsonModel)>, from: int, rest: Seq<u8>)
    requires
        0 <= from < members.len(),
        parse_value(json_text(members[from].1) + (members_text(members, from + 1) + rest)) == Some(
            (members[from].1, json_text(members[from].1).len() as int),
        ),
        parse_members(members_text(members, from + 1) + rest, false) == Some(
            (members.skip(from + 1), members_text(members, from + 1).len() as int),
        ),
    ensures
        parse_members(members_text(members, from) + rest, from == 0) == Some(
            (members.skip(from), members_text(members, from).len() as int),
        ),
{
    let input = members_text(members, from) + rest;
    let name = members[from].0;
    let value = json_text(members[from].1);
    let tail = members_text(members, from + 1);
    lemma_members_text_parts(members, from, rest);
    lemma_first_byte(members[from].1);
    lemma_member_facts(input, from == 0, name, value, tail + rest);
    lemma_parse_member(input, from == 0, name, members[from].1, value.len() as int);
    assert(input[0] != 0x7d);
    assert(seq![(name, members[from].1)] + members.skip(from + 1) =~= members.skip(from));
}

/// The members of an object from index `from` on are read back from
/// their text.
pub proof fn lemma_parse_members(members: Seq<(Seq<char>, JsonModel)>, from: int, rest: Seq<u8>)
    requires
        0 <= from <= members.len(),
    ensures
        parse_members(members_text(members, from) + rest, from == 0) == Some(
            (members.skip(from), members_text(members, from).len() as int),
        ),
    decreases members, members.len() - from,
{
    if from == members.len() {
        let input = members_text(members, from) + rest;
        assert(input[0] == 0x7d);
        assert(members.skip(from) =~= Seq::<(Seq<char>, JsonModel)>::empty());
    } else {
        let tail = members_text(members, from + 1);
        lemma_members_text_first(members, from + 1);
        assert((tail + rest)[0] == tail[0]);
        lemma_parse_value(members[from].1, tail + rest);
        lemma_parse_members(members, from + 1, rest);
        lemma_parse_members_step(members, from, rest);
    }
}

} // verus!

verus! {

/// Appends a number in decimal digits.
pub fn write_decimal(out: &mut Vec<u8>, n: u64)
    ensures
        final(out)@ == old(out)@ + decimal_bytes(n as nat),
    decreases n,
{
    if n < 10 {
        out.push(0x30 + n as u8);
        assert(out@ =~= old(out)@ + decimal_bytes(n as nat));
    } else {
        write_decimal(out, n / 10);
        out.push(0x30 + (n % 10) as u8);
        assert(out@ =~= old(out)@ + decimal_bytes(n as nat));
    }
}

/// The hexadecimal digit of a value below sixteen.
fn hex_digit(n: u8) -> (b: u8)
    requires
        n < 16,
    ensures
        b == hex_byte(n as int),
{
    if n < 10 {
        0x30 + n
    } else {
        0x61 + (n - 10)
    }
}

/// Appends what stands for a byte between quotes.
fn write_escaped_byte(out: &mut Vec<u8>, b: u8)
    ensures
        final(out)@ == old(out)@ + escaped_byte(b),
{
    if b == 0x22 {
        out.push(0x5c);
        out.push(0x22);
    } else if b == 0x5c {
        out.push(0x5c);
        out.push(0x5c);
    } else if b == 0x08 {
        out.push(0x5c);
        out.push(0x62);
    } else if b == 0x09 {
        out.push(0x5c);
        out.push(0x74);
    } else if b == 0x0a {
        out.push(0x5c);
        out.push(0x6e);
    } else if b == 0x0c {
        out.push(0x5c);
        out.push(0x66);
    } else if b == 0x0d {
        out.push(0x5c);
        out.push(0x72);
    } else if b < 0x20 {
        out.push(0x5c);
        out.push(0x75);
        out.push(0x30);
        out.push(0x30);
        out.push(hex_digit(b / 16));
        out.push(hex_digit(b % 16));
    } else {
        out.push(b);
    }
    assert(out@ =~= old(out)@ + escaped_byte(b));
}

/// Appends a string between quotes.
pub fn write_quoted(out: &mut Vec<u8>, text: &str)
    ensures
        final(out)@ == old(out)@ + quoted(text@),
{
    let bytes = text.as_bytes();
    proof {
        reveal(utf8);
    }
    out.push(0x22);
    let ghost start = out@;
    let mut i: usize = 0;
    assert(bytes@.skip(0) =~= bytes@);
    while i < bytes.len()
        invariant
            i <= bytes@.len(),
            out@ + escaped(bytes@.skip(i as int)) == start + escaped(bytes@),
        decreases bytes@.len() - i,
    {
        let ghost before = out@;
        let ghost rest = bytes@.skip(i as int);
        write_escaped_byte(out, bytes[i]);
        proof {
            assert(rest[0] == bytes@[i as int]);
            assert(rest.drop_first() =~= bytes@.skip(i + 1));
            assert(before + (escaped_byte(rest[0]) + escaped(rest.drop_first())) =~= (before
                + escaped_byte(rest[0])) + escaped(rest.drop_first()));
        }
        i += 1;
    }
    assert(out@ + Seq::<u8>::empty() =~= out@);
    out.push(0x22);
    assert(out@ =~= old(out)@ + quoted(text@));
}

/// Appends the text of a structured value.
pub fn write_json(out: &mut Vec<u8>, j: &Json)
    ensures
        final(out)@ == old(out)@ + json_text(j@),
    decreases j, 0nat,
{
    match j {
        Json::Null => {
            out.push(0x6e);
            out.push(0x75);
            out.push(0x6c);
            out.push(0x6c);
            assert(out@ =~= old(out)@ + null_text());
        },
        Json::Bool(b) => {
            if *b {
                out.push(0x74);
                out.push(0x72);
                out.push(0x75);
                out.push(0x65);
                assert(out@ =~= old(out)@ + true_text());
            } else {
                out.push(0x66);
                out.push(0x61);
                out.push(0x6c);
                out.push(0x73);
                out.push(0x65);
                assert(out@ =~= old(out)@ + false_text());
            }
        },
        Json::Number(n) => {
            write_decimal(out, *n);
        },
        Json::Text(s) => {
            write_quoted(out, s.as_str());
        },
        Json::Array(items) => {
            out.push(0x5b);
            write_items(out, items, 0);
            assert(out@ =~= old(out)@ + json_text(j@));
        },
        Json::Object(members) => {
            out.push(0x7b);
            write_members(out, members, 0);
            assert(out@ =~= old(out)@ + json_text(j@));
        },
    }
}

/// Appends the items of an array from index `from` on, and the closing
/// bracket.
fn write_items(out: &mut Vec<u8>, items: &Vec<Json>, from: usize)
    requires
        from <= items@.len(),
    ensures
        final(out)@ == old(out)@ + items_text(models_of(items@, items@.len() as int), from as int),
    decreases items, items@.len() - from,
{
    proof {
        lemma_models_of(items@, items@.len() as int);
    }
    if from < items.len() {
        if from > 0 {
            out.push(0x2c);
        }
        write_json(out, &items[from]);
        write_items(out, items, from + 1);
        assert(out@ =~= old(out)@ + items_text(
            models_of(items@, items@.len() as int),
            from as int,
        ));
    } else {
        out.push(0x5d);
        assert(out@ =~= old(out)@ + items_text(
            models_of(items@, items@.len() as int),
            from as int,
        ));
    }
}

/// Appends the members of an object from index `from` on, and the closing
/// brace.
fn write_members(out: &mut Vec<u8>, members: &Vec<(String, Json)>, from: usize)
    requires
        from <= members@.len(),
    ensures
        final(out)@ == old(out)@ + members_text(
            member_models_of(members@, members@.len() as int),
            from as int,
        ),
    decreases members, members@.len() - from,
{
    proof {
        lemma_member_models_of(members@, members@.len() as int);
    }
    if from < members.len() {
        if from > 0 {
            out.push(0x2c);
        }
        write_quoted(out, members[from].0.as_str());
        out.push(0x3a);
        write_json(out, &members[from].1);
        write_members(out, members, from + 1);
        assert(out@ =~= old(out)@ + members_text(
            member_models_of(members@, members@.len() as int),
            from as int,
        ));
    } else {
        out.push(0x7d);
        assert(out@ =~= old(out)@ + members_text(
            member_models_of(members@, members@.len() as int),
            from as int,
        ));
    }
}

/// The text of a structured value.
pub fn to_text(j: &Json) -> (text: Vec<u8>)
    ensures
        text@ == json_text(j@),
{
    let mut out: Vec<u8> = Vec::new();
    write_json(&mut out, j);
    assert(Seq::<u8>::empty() + json_text(j@) =~= json_text(j@));
    out
}

} // verus!

verus! {

/// A structured value is read back from its text.
pub proof fn lemma_text_round_trip(j: JsonModel)
    ensures
        parse_value(json_text(j)) == Some((j, json_text(j).len() as int)),
{
    lemma_parse_value(j, Seq::<u8>::empty());
    assert(json_text(j) + Seq::<u8>::empty() =~= json_text(j));
}

/// The run of digits at the start of a text holds digits only and ends
/// with the text or before a byte that is no digit.
pub proof fn lemma_digit_run_ends(input: Seq<u8>)
    ensures
        0 <= digit_run(input) <= input.len(),
        forall|i: int| 0 <= i < digit_run(input) ==> is_digit_byte(#[trigger] input[i]),
        digit_run(input) < input.len() ==> !is_digit_byte(input[digit_run(input)]),
    decreases input.len(),
{
    if input.len() == 0 || !is_digit_byte(input[0]) {
    } else {
        let rest = input.drop_first();
        lemma_digit_run_ends(rest);
        assert forall|i: int| 0 <= i < digit_run(input) implies is_digit_byte(
            #[trigger] input[i],
        ) by {
            if i > 0 {
                assert(input[i] == rest[i - 1]);
            }
        }
        if digit_run(input) < input.len() {
            assert(input[digit_run(input)] == rest[digit_run(rest)]);
        }
    }
}

/// The value of digits is at least the value of each of their prefixes.
pub proof fn lemma_digits_value_grows(digits: Seq<u8>, n: int)
    requires
        0 <= n <= digits.len(),
        forall|i: int| 0 <= i < digits.len() ==> is_digit_byte(#[trigger] digits[i]),
    ensures
        digits_value(digits.take(n)) <= digits_value(digits),
    decreases digits.len() - n,
{
    if n < digits.len() {
        lemma_digits_value_grows(digits, n + 1);
        let next = digits.take(n + 1);
        assert(next.drop_last() =~= digits.take(n));
        assert(is_digit_byte(digits[n]));
        assert(next.last() == digits[n]);
    } else {
        assert(digits.take(n) =~= digits);
    }
}

/// Reads the number that starts at `pos`.
fn read_number(input: &[u8], pos: usize) -> (r: Option<(u64, usize)>)
    requires
        pos < input@.len(),
        is_digit_byte(input@[pos as int]),
    ensures
        ({
            let rest = input@.skip(pos as int);
            let value = digits_value(rest.take(digit_run(rest)));
            match r {
                Some((n, end)) => end == pos + digit_run(rest) && n == value && end <= input@.len(),
                None => value > u64::MAX,
            }
        }),
{
    let ghost rest = input@.skip(pos as int);
    let mut value: u64 = 0;
    let mut i: usize = pos;
    proof {
        lemma_digit_run_ends(rest);
        assert(rest.take(0) =~= Seq::<u8>::empty());
    }
    while i < input.len() && 0x30 <= input[i] && input[i] <= 0x39
        invariant
            pos <= i <= input@.len(),
            rest == input@.skip(pos as int),
            forall|k: int| 0 <= k < i - pos ==> is_digit_byte(#[trigger] rest[k]),
            value == digits_value(rest.take(i - pos)),
        decreases input@.len() - i,
    {
        let d: u64 = (input[i] - 0x30) as u64;
        proof {
            let next = rest.take(i - pos + 1);
            assert(next.drop_last() =~= rest.take(i - pos));
            assert(next.last() == input@[i as int]);
        }
        if value > (u64::MAX - d) / 10 {
            proof {
                lemma_digit_run_ends(rest);
                let run = digit_run(rest);
                if run < i - pos + 1 {
                    assert(is_digit_byte(rest[run]));
                }
                let digits = rest.take(run);
                assert(digits.take(i - pos + 1) =~= rest.take(i - pos + 1));
                lemma_digits_value_grows(digits, i - pos + 1);
            }
            return None;
        }
        value = value * 10 + d;
        i += 1;
    }
    proof {
        let digits = rest.take(i - pos);
        let after = rest.skip(i - pos);
        assert(rest =~= digits + after);
        if after.len() > 0 {
            assert(after[0] == input@[i as int]);
        }
        lemma_digit_run(digits, after);
    }
    Some((value, i))
}

/// The value of a hexadecimal digit.
fn hex_digit_value(b: u8) -> (r: Option<u8>)
    ensures
        match r {
            Some(v) => v == hex_value(b),
            None => hex_value(b) == -1,
        },
{
    if 0x30 <= b && b <= 0x39 {
        Some(b - 0x30)
    } else if 0x61 <= b && b <= 0x66 {
        Some(b - 0x61 + 10)
    } else {
        None
    }
}

/// Reads the byte of a string that starts at `pos`.
fn read_byte(input: &[u8], pos: usize) -> (r: Option<(u8, usize)>)
    requires
        pos <= input@.len(),
    ensures
        match parse_byte(input@.skip(pos as int)) {
            Some((b, used)) => r == Some((b, (pos + used) as usize)) && 0 < used && pos + used
                <= input@.len(),
            None => r is None,
        },
{
    let n = input.len();
    if pos >= n {
        return None;
    }
    let first = input[pos];
    if first == 0x5c {
        if n - pos < 2 {
            return None;
        }
        let second = input[pos + 1];
        if second == 0x22 {
            Some((0x22, pos + 2))
        } else if second == 0x5c {
            Some((0x5c, pos + 2))
        } else if second == 0x62 {
            Some((0x08, pos + 2))
        } else if second == 0x74 {
            Some((0x09, pos + 2))
        } else if second == 0x6e {
            Some((0x0a, pos + 2))
        } else if second == 0x66 {
            Some((0x0c, pos + 2))
        } else if second == 0x72 {
            Some((0x0d, pos + 2))
        } else if second == 0x75 && n - pos >= 6 && input[pos + 2] == 0x30 && input[pos + 3]
            == 0x30 {
            match (hex_digit_value(input[pos + 4]), hex_digit_value(input[pos + 5])) {
                (Some(high), Some(low)) => {
                    if high < 8 {
                        Some((high * 16 + low, pos + 6))
                    } else {
                        None
                    }
                },
                _ => None,
            }
        } else {
            None
        }
    } else if first < 0x20 || first == 0x22 {
        None
    } else {
        Some((first, pos + 1))
    }
}

/// Reads the string whose opening quote stands before `pos`.
fn read_string(input: &[u8], pos: usize) -> (r: Option<(Vec<u8>, usize)>)
    requires
        pos <= input@.len(),
    ensures
        match parse_string(input@.skip(pos as int)) {
            Some((bytes, used)) => r is Some && (r->0).0@ == bytes && (r->0).1 == pos + used && 0 < used
                && pos + used <= input@.len(),
            None => r is None,
        },
{
    let mut bytes: Vec<u8> = Vec::new();
    let mut i: usize = pos;
    loop
        invariant
            pos <= i <= input@.len(),
            parse_string(input@.skip(pos as int)) == match parse_string(input@.skip(i as int)) {
                Some((rest, more)) => Some((bytes@ + rest, i - pos + more)),
                None => None::<(Seq<u8>, int)>,
            },
        decreases input@.len() - i,
    {
        if i >= input.len() {
            return None;
        }
        if input[i] == 0x22 {
            assert(bytes@ + Seq::<u8>::empty() =~= bytes@);
            return Some((bytes, i + 1));
        }
        match read_byte(input, i) {
            Some((b, next)) => {
                proof {
                    let here = input@.skip(i as int);
                    assert(here.skip(next - i) =~= input@.skip(next as int));
                    match parse_string(input@.skip(next as int)) {
                        Some((rest, more)) => {
                            assert(bytes@ + (seq![b] + rest) =~= bytes@.push(b) + rest);
                        },
                        None => {},
                    }
                }
                bytes.push(b);
                i = next;
            },
            None => {
                return None;
            },
        }
    }
}

/// Whether the four bytes from `pos` on are these.
fn four_bytes_are(input: &[u8], pos: usize, a: u8, b: u8, c: u8, d: u8) -> (r: bool)
    requires
        pos <= input@.len(),
    ensures
        r == (input@.skip(pos as int).len() >= 4 && input@.skip(pos as int).take(4) == seq![
            a,
            b,
            c,
            d,
        ]),
{
    if input.len() - pos < 4 {
        return false;
    }
    let r = input[pos] == a && input[pos + 1] == b && input[pos + 2] == c && input[pos + 3] == d;
    proof {
        let got = input@.skip(pos as int).take(4);
        let want = seq![a, b, c, d];
        if r {
            assert(got =~= want);
        } else {
            if got == want {
                assert(got[0] == want[0]);
                assert(got[1] == want[1]);
                assert(got[2] == want[2]);
                assert(got[3] == want[3]);
            }
        }
    }
    r
}

/// Reads the structured value whose text starts at `pos`, and returns it
/// with the position after its text.
fn read_value(input: &[u8], pos: usize) -> (r: Option<(Json, usize)>)
    requires
        pos <= input@.len(),
    ensures
        match parse_value(input@.skip(pos as int)) {
            Some((j, used)) => r is Some && (r->0).0@ == j && (r->0).1 == pos + used && 0 < used && pos
                + used <= input@.len(),
            None => r is None,
        },
    decreases input@.len() - pos, 2nat,
{
    let n = input.len();
    if pos >= n {
        return None;
    }
    let first = input[pos];
    let ghost rest = input@.skip(pos as int);
    assert(rest[0] == first);
    if first == 0x6e {
        if four_bytes_are(input, pos, 0x6e, 0x75, 0x6c, 0x6c) {
            Some((Json::Null, pos + 4))
        } else {
            None
        }
    } else if first == 0x74 {
        if four_bytes_are(input, pos, 0x74, 0x72, 0x75, 0x65) {
            Some((Json::Bool(true), pos + 4))
        } else {
            None
        }
    } else if first == 0x66 {
        if n - pos >= 5 && four_bytes_are(input, pos, 0x66, 0x61, 0x6c, 0x73) && input[pos + 4]
            == 0x65 {
            assert(rest.take(5) =~= false_text()) by {
                assert(rest.take(4) == seq![0x66u8, 0x61u8, 0x6cu8, 0x73u8]);
                assert(rest.take(5)[0] == rest.take(4)[0]);
                assert(rest.take(5)[1] == rest.take(4)[1]);
                assert(rest.take(5)[2] == rest.take(4)[2]);
                assert(rest.take(5)[3] == rest.take(4)[3]);
            }
            Some((Json::Bool(false), pos + 5))
        } else {
            proof {
                if rest.len() >= 5 && rest.take(5) == false_text() {
                    assert(rest.take(4) =~= seq![0x66u8, 0x61u8, 0x6cu8, 0x73u8]) by {
                        assert(rest.take(4)[0] == rest.take(5)[0]);
                        assert(rest.take(4)[1] == rest.take(5)[1]);
                        assert(rest.take(4)[2] == rest.take(5)[2]);
                        assert(rest.take(4)[3] == rest.take(5)[3]);
                    }
                    assert(rest.take(5)[4] == 0x65);
                }
            }
            None
        }
    } else if 0x30 <= first && first <= 0x39 {
        match read_number(input, pos) {
            Some((value, end)) => {
                proof {
                    lemma_digit_run_ends(rest);
                }
                Some((Json::Number(value), end))
            },
            None => None,
        }
    } else if first == 0x22 {
        assert(rest.skip(1) =~= input@.skip(pos + 1));
        match read_string(input, pos + 1) {
            Some((bytes, end)) => {
                proof {
                    reveal(text_of);
                }
                match string_from_utf8(&bytes) {
                    Some(text) => Some((Json::Text(text), end)),
                    None => None,
                }
            },
            None => None,
        }
    } else if first == 0x5b {
        assert(rest.skip(1) =~= input@.skip(pos + 1));
        match read_items(input, pos + 1) {
            Some((items, end)) => Some((Json::Array(items), end)),
            None => None,
        }
    } else if first == 0x7b {
        assert(rest.skip(1) =~= input@.skip(pos + 1));
        match read_members(input, pos + 1) {
            Some((members, end)) => Some((Json::Object(members), end)),
            None => None,
        }
    } else {
        None
    }
}

/// Reads the items of the array whose opening bracket stands before
/// `pos`.
fn read_items(input: &[u8], pos: usize) -> (r: Option<(Vec<Json>, usize)>)
    requires
        pos <= input@.len(),
    ensures
        match parse_items(input@.skip(pos as int), true) {
            Some((items, used)) => r is Some && models_of((r->0).0@, (r->0).0@.len() as int) == items
                && (r->0).1 == pos + used && 0 < used && pos + used <= input@.len(),
            None => r is None,
        },
    decreases input@.len() - pos, 3nat,
{
    let mut items: Vec<Json> = Vec::new();
    let mut i: usize = pos;
    let mut first = true;
    assert(models_of(items@, 0) =~= Seq::<JsonModel>::empty());
    loop
        invariant
            pos <= i <= input@.len(),
            first ==> i == pos,
            parse_items(input@.skip(pos as int), true) == match parse_items(
                input@.skip(i as int),
                first,
            ) {
                Some((rest, more)) => Some(
                    (models_of(items@, items@.len() as int) + rest, i - pos + more),
                ),
                None => None::<(Seq<JsonModel>, int)>,
            },
        decreases input@.len() - i,
    {
        let ghost here = input@.skip(i as int);
        if i >= input.len() {
            return None;
        }
        assert(here[0] == input@[i as int]);
        if input[i] == 0x5d {
            assert(models_of(items@, items@.len() as int) + Seq::<JsonModel>::empty() =~= models_of(
                items@,
                items@.len() as int,
            ));
            return Some((items, i + 1));
        }
        let start: usize = if first {
            i
        } else {
            if input[i] != 0x2c {
                return None;
            }
            i + 1
        };
        assert(here.skip(start - i) =~= input@.skip(start as int));
        match read_value(input, start) {
            Some((item, next)) => {
                proof {
                    assert(here.skip(next - i) =~= input@.skip(next as int));
                    let before = models_of(items@, items@.len() as int);
                    let grown = items@.push(item);
                    lemma_models_of(items@, items@.len() as int);
                    lemma_models_of(grown, grown.len() as int);
                    assert(models_of(grown, grown.len() as int) =~= before.push(item@));
                    match parse_items(input@.skip(next as int), false) {
                        Some((rest, more)) => {
                            assert(before + (seq![item@] + rest) =~= before.push(item@) + rest);
                        },
                        None => {},
                    }
                }
                items.push(item);
                i = next;
                first = false;
            },
            None => {
                return None;
            },
        }
    }
}

/// Reads the member that starts at `pos`.
fn read_member(input: &[u8], pos: usize, first: bool) -> (r: Option<((String, Json), usize)>)
    requires
        pos <= input@.len(),
    ensures
        match parse_member(input@.skip(pos as int), first) {
            Some((member, used)) => r is Some && ((r->0).0).0@ == member.0 && ((r->0).0).1@ == member.1
                && (r->0).1 == pos + used && 0 < used && pos + used <= input@.len(),
            None => r is None,
        },
    decreases input@.len() - pos, 3nat,
{
    let ghost here = input@.skip(pos as int);
    let n = input.len();
    let lead: usize = if first {
        1
    } else {
        2
    };
    if n - pos < lead {
        return None;
    }
    assert(here[0] == input@[pos as int]);
    if !first && input[pos] != 0x2c {
        return None;
    }
    assert(here[lead - 1] == input@[pos + lead - 1]);
    if input[pos + lead - 1] != 0x22 {
        return None;
    }
    let start: usize = pos + lead;
    assert(here.skip(lead as int) =~= input@.skip(start as int));
    let (name_bytes, colon) = match read_string(input, start) {
        Some(pair) => pair,
        None => {
            return None;
        },
    };
    proof {
        reveal(text_of);
    }
    let name = match string_from_utf8(&name_bytes) {
        Some(text) => text,
        None => {
            return None;
        },
    };
    if colon >= n {
        return None;
    }
    assert(here[colon - pos] == input@[colon as int]);
    if input[colon] != 0x3a {
        return None;
    }
    assert(here.skip(colon + 1 - pos) =~= input@.skip(colon + 1));
    match read_value(input, colon + 1) {
        Some((value, next)) => Some(((name, value), next)),
        None => None,
    }
}

/// Reads the members of the object whose opening brace stands before
/// `pos`.
fn read_members(input: &[u8], pos: usize) -> (r: Option<(Vec<(String, Json)>, usize)>)
    requires
        pos <= input@.len(),
    ensures
        match parse_members(input@.skip(pos as int), true) {
            Some((members, used)) => r is Some && member_models_of(
                (r->0).0@,
                (r->0).0@.len() as int,
            ) == members && (r->0).1 == pos + used && 0 < used && pos + used <= input@.len(),
            None => r is None,
        },
    decreases input@.len() - pos, 4nat,
{
    let mut members: Vec<(String, Json)> = Vec::new();
    let mut i: usize = pos;
    let mut first = true;
    assert(member_models_of(members@, 0) =~= Seq::<(Seq<char>, JsonModel)>::empty());
    loop
        invariant
            pos <= i <= input@.len(),
            first ==> i == pos,
            parse_members(input@.skip(pos as int), true) == match parse_members(
                input@.skip(i as int),
                first,
            ) {
                Some((rest, more)) => Some(
                    (member_models_of(members@, members@.len() as int) + rest, i - pos + more),
                ),
                None => None::<(Seq<(Seq<char>, JsonModel)>, int)>,
            },
        decreases input@.len() - i,
    {
        let ghost here = input@.skip(i as int);
        if i >= input.len() {
            return None;
        }
        assert(here[0] == input@[i as int]);
        if input[i] == 0x7d {
            assert(member_models_of(members@, members@.len() as int) + Seq::<
                (Seq<char>, JsonModel),
            >::empty() =~= member_models_of(members@, members@.len() as int));
            return Some((members, i + 1));
        }
        match read_member(input, i, first) {
            Some((member, next)) => {
                proof {
                    assert(here.skip(next - i) =~= input@.skip(next as int));
                    let before = member_models_of(members@, members@.len() as int);
                    let grown = members@.push(member);
                    let model = (member.0@, member.1@);
                    lemma_member_models_of(members@, members@.len() as int);
                    lemma_member_models_of(grown, grown.len() as int);
                    assert(member_models_of(grown, grown.len() as int) =~= before.push(model));
                    match parse_members(input@.skip(next as int), false) {
                        Some((rest, more)) => {
                            assert(before + (seq![model] + rest) =~= before.push(model) + rest);
                        },
                        None => {},
                    }
                }
                members.push(member);
                i = next;
                first = false;
            },
            None => {
                return None;
            },
        }
    }
}

/// The structured value that a text holds: `None` where the text is not
/// the text of one value.
pub fn from_text(input: &[u8]) -> (r: Option<Json>)
    ensures
        match parse_value(input@) {
            Some((j, used)) => if used == input@.len() {
                r is Some && r->0@ == j
            } else {
                r is None
            },
            None => r is None,
        },
{
    assert(input@.skip(0) =~= input@);
    match read_value(input, 0) {
        Some((j, end)) => {
            if end == input.len() {
                Some(j)
            } else {
                None
            }
        },
        None => None,
    }
}

} // verus!
