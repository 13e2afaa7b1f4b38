//! The wire form of the messages: each message as a structured value,
//! and that value as text.  Variants without fields are written as their
//! name, variants with fields as an object with the name as its only
//! member; an absent option is `null`.
use crate::compiler::parser::text_is;
use crate::debugger::remote::framing::{
    announced, decode_frame, decodes, encode_frame, framed, lemma_frame_round_trip, Decoded,
};
use crate::debugger::remote::json::{
    from_text, json_text, lemma_member_models_of, lemma_models_of, lemma_text_round_trip,
    member_models_of, models_of, parse_value, to_text, Json, JsonModel,
};
use crate::debugger::remote::protocol::{
    DebugCommand, DebugEvent, DebuggerCapabilities, MessageContent, MessageType, OutputCategory,
    ProtocolError, ProtocolMessage, ResponseBody, Source, StackFrame, StopReason, Variable,
};
use vstd::prelude::*;

verus! {

/// A value under the name of its variant.
pub open spec fn tagged(name: &str, value: JsonModel) -> JsonModel {
    JsonModel::Object(seq![(name@, value)])
}

/// A text, or `null`.
pub open spec fn optional_text(text: Option<String>) -> JsonModel {
    match text {
        Some(t) => JsonModel::Text(t@),
        None => JsonModel::Null,
    }
}

/// A number, or `null`.
pub open spec fn optional_number(n: Option<usize>) -> JsonModel {
    match n {
        Some(v) => JsonModel::Number(v as u64),
        None => JsonModel::Null,
    }
}

/// Texts as an array.
pub open spec fn texts(items: Seq<String>) -> JsonModel {
    JsonModel::Array(Seq::new(items.len(), |i: int| JsonModel::Text(items[i]@)))
}

/// Bytes as an array of numbers.
pub open spec fn numbers(items: Seq<u8>) -> JsonModel {
    JsonModel::Array(Seq::new(items.len(), |i: int| JsonModel::Number(items[i] as u64)))
}

/// A text as a structured value.
pub fn text_json(text: &String) -> (j: Json)
    ensures
        j@ == JsonModel::Text(text@),
{
    Json::Text(text.clone())
}

/// A name as a structured value.
pub fn name_json(name: &str) -> (j: Json)
    ensures
        j@ == JsonModel::Text(name@),
{
    Json::Text(name.to_owned())
}

/// An optional text as a structured value.
pub fn optional_text_json(text: &Option<String>) -> (j: Json)
    ensures
        j@ == optional_text(*text),
{
    match text {
        Some(t) => Json::Text(t.clone()),
        None => Json::Null,
    }
}

/// An optional number as a structured value.
pub fn optional_number_json(n: Option<usize>) -> (j: Json)
    ensures
        j@ == optional_number(n),
{
    match n {
        Some(v) => Json::Number(v as u64),
        None => Json::Null,
    }
}

/// Texts as a structured value.
pub fn texts_json(items: &Vec<String>) -> (j: Json)
    ensures
        j@ == texts(items@),
{
    let mut out: Vec<Json> = Vec::new();
    let mut i: usize = 0;
    while i < items.len()
        invariant
            i <= items@.len(),
            out@.len() == i,
            forall|k: int| 0 <= k < i ==> (#[trigger] out@[k])@ == JsonModel::Text(items@[k]@),
        decreases items@.len() - i,
    {
        out.push(Json::Text(items[i].clone()));
        i += 1;
    }
    proof {
        lemma_models_of(out@, out@.len() as int);
        assert(models_of(out@, out@.len() as int) =~= Seq::new(
            items@.len(),
            |i: int| JsonModel::Text(items@[i]@),
        ));
    }
    Json::Array(out)
}

/// Bytes as a structured value.
pub fn numbers_json(items: &Vec<u8>) -> (j: Json)
    ensures
        j@ == numbers(items@),
{
    let mut out: Vec<Json> = Vec::new();
    let mut i: usize = 0;
    while i < items.len()
        invariant
            i <= items@.len(),
            out@.len() == i,
            forall|k: int| 0 <= k < i ==> (#[trigger] out@[k])@ == JsonModel::Number(items@[k] as u64),
        decreases items@.len() - i,
    {
        out.push(Json::Number(items[i] as u64));
        i += 1;
    }
    proof {
        lemma_models_of(out@, out@.len() as int);
        assert(models_of(out@, out@.len() as int) =~= Seq::new(
            items@.len(),
            |i: int| JsonModel::Number(items@[i] as u64),
        ));
    }
    Json::Array(out)
}

/// The members of an object that is being built, as mathematical values.
pub open spec fn built(members: Seq<(String, Json)>) -> Seq<(Seq<char>, JsonModel)> {
    member_models_of(members, members.len() as int)
}

/// Adds a member to an object that is being built.
pub fn add_member(members: &mut Vec<(String, Json)>, name: &str, value: Json)
    ensures
        built(final(members)@) == built(old(members)@).push((name@, value@)),
{
    proof {
        lemma_member_models_of(members@, members@.len() as int);
    }
    members.push((name.to_owned(), value));
    proof {
        lemma_member_models_of(members@, members@.len() as int);
        assert(built(members@) =~= built(old(members)@).push((name@, value@)));
    }
}

/// An object with the members that were added.
pub fn object_json(members: Vec<(String, Json)>) -> (j: Json)
    ensures
        j@ == JsonModel::Object(built(members@)),
{
    Json::Object(members)
}

/// A value under the name of its variant.
pub fn tagged_json(name: &str, value: Json) -> (j: Json)
    ensures
        j@ == tagged(name, value@),
{
    let mut members: Vec<(String, Json)> = Vec::new();
    assert(built(members@) =~= Seq::<(Seq<char>, JsonModel)>::empty());
    add_member(&mut members, name, value);
    assert(built(members@) =~= seq![(name@, value@)]);
    Json::Object(members)
}

/// The text of a structured value that is a text.
pub fn as_text(j: &Json) -> (r: Option<String>)
    ensures
        r is Some <==> j@ is Text,
        r is Some ==> j@ == JsonModel::Text(r->0@),
{
    match j {
        Json::Text(t) => Some(t.clone()),
        _ => None,
    }
}

/// The number of a structured value that is a number.
pub fn as_number(j: &Json) -> (r: Option<u64>)
    ensures
        r is Some <==> j@ is Number,
        r is Some ==> j@ == JsonModel::Number(r->0),
{
    match j {
        Json::Number(n) => Some(*n),
        _ => None,
    }
}

/// The number of a structured value that is a number which fits `usize`.
pub fn as_usize(j: &Json) -> (r: Option<usize>)
    ensures
        r is Some <==> j@ is Number && j@->Number_0 <= usize::MAX,
        r is Some ==> j@ == JsonModel::Number(r->0 as u64),
{
    match j {
        Json::Number(n) => if *n <= usize::MAX as u64 {
            Some(*n as usize)
        } else {
            None
        },
        _ => None,
    }
}

/// The number of a structured value that is a number which fits `u32`.
pub fn as_u32(j: &Json) -> (r: Option<u32>)
    ensures
        r is Some <==> j@ is Number && j@->Number_0 <= u32::MAX,
        r is Some ==> j@ == JsonModel::Number(r->0 as u64),
{
    match j {
        Json::Number(n) => if *n <= 0xffff_ffff {
            Some(*n as u32)
        } else {
            None
        },
        _ => None,
    }
}

/// The truth value of a structured value that is one.
pub fn as_bool(j: &Json) -> (r: Option<bool>)
    ensures
        r is Some <==> j@ is Bool,
        r is Some ==> j@ == JsonModel::Bool(r->0),
{
    match j {
        Json::Bool(b) => Some(*b),
        _ => None,
    }
}

/// The optional text of a structured value that is a text or `null`.
pub fn as_optional_text(j: &Json) -> (r: Option<Option<String>>)
    ensures
        r is Some <==> j@ is Text || j@ is Null,
        r is Some ==> j@ == optional_text(r->0),
{
    match j {
        Json::Text(t) => Some(Some(t.clone())),
        Json::Null => Some(None),
        _ => None,
    }
}

/// The optional number of a structured value that is a number which fits
/// `usize`, or `null`.
pub fn as_optional_number(j: &Json) -> (r: Option<Option<usize>>)
    ensures
        r is Some <==> (j@ is Number && j@->Number_0 <= usize::MAX) || j@ is Null,
        r is Some ==> j@ == optional_number(r->0),
{
    match j {
        Json::Number(n) => if *n <= usize::MAX as u64 {
            Some(Some(*n as usize))
        } else {
            None
        },
        Json::Null => Some(None),
        _ => None,
    }
}

/// The texts of a structured value that is an array of texts.
pub fn as_texts(j: &Json) -> (r: Option<Vec<String>>)
    ensures
        r is Some <==> j@ is Array && forall|i: int|
            0 <= i < j@->Array_0.len() ==> (#[trigger] j@->Array_0[i]) is Text,
        r is Some ==> j@ == texts(r->0@),
{
    let items = match j {
        Json::Array(items) => items,
        _ => {
            return None;
        },
    };
    proof {
        lemma_models_of(items@, items@.len() as int);
    }
    let mut out: Vec<String> = Vec::new();
    let mut i: usize = 0;
    while i < items.len()
        invariant
            i <= items@.len(),
            out@.len() == i,
            j@ == JsonModel::Array(models_of(items@, items@.len() as int)),
            models_of(items@, items@.len() as int).len() == items@.len(),
            forall|k: int|
                0 <= k < items@.len() ==> #[trigger] models_of(items@, items@.len() as int)[k]
                    == items@[k]@,
            forall|k: int| 0 <= k < i ==> (#[trigger] items@[k])@ == JsonModel::Text(out@[k]@),
        decreases items@.len() - i,
    {
        match &items[i] {
            Json::Text(t) => {
                out.push(t.clone());
            },
            _ => {
                assert(!(j@->Array_0[i as int] is Text));
                return None;
            },
        }
        i += 1;
    }
    proof {
        assert(models_of(items@, items@.len() as int) =~= Seq::new(
            out@.len(),
            |i: int| JsonModel::Text(out@[i]@),
        ));
    }
    Some(out)
}

/// The bytes of a structured value that is an array of numbers below 256.
pub fn as_numbers(j: &Json) -> (r: Option<Vec<u8>>)
    ensures
        r is Some <==> j@ is Array && forall|i: int|
            0 <= i < j@->Array_0.len() ==> (#[trigger] j@->Array_0[i]) is Number
                && j@->Array_0[i]->Number_0 < 256,
        r is Some ==> j@ == numbers(r->0@),
{
    let items = match j {
        Json::Array(items) => items,
        _ => {
            return None;
        },
    };
    proof {
        lemma_models_of(items@, items@.len() as int);
    }
    let mut out: Vec<u8> = Vec::new();
    let mut i: usize = 0;
    while i < items.len()
        invariant
            i <= items@.len(),
            out@.len() == i,
            j@ == JsonModel::Array(models_of(items@, items@.len() as int)),
            models_of(items@, items@.len() as int).len() == items@.len(),
            forall|k: int|
                0 <= k < items@.len() ==> #[trigger] models_of(items@, items@.len() as int)[k]
                    == items@[k]@,
            forall|k: int|
                0 <= k < i ==> (#[trigger] items@[k])@ == JsonModel::Number(out@[k] as u64),
        decreases items@.len() - i,
    {
        match &items[i] {
            Json::Number(n) => {
                if *n >= 256 {
                    assert(!(j@->Array_0[i as int]->Number_0 < 256));
                    return None;
                }
                out.push(*n as u8);
            },
            _ => {
                assert(!(j@->Array_0[i as int] is Number));
                return None;
            },
        }
        i += 1;
    }
    proof {
        assert(models_of(items@, items@.len() as int) =~= Seq::new(
            out@.len(),
            |i: int| JsonModel::Number(out@[i] as u64),
        ));
    }
    Some(out)
}

/// The members of a structured value that is an object.
pub fn as_object(j: &Json) -> (r: Option<&Vec<(String, Json)>>)
    ensures
        r is Some <==> j@ is Object,
        r is Some ==> j@ == JsonModel::Object(built(r->0@)) && built(r->0@).len() == r->0@.len()
            && forall|i: int|
            0 <= i < r->0@.len() ==> #[trigger] built(r->0@)[i] == (r->0@[i].0@, r->0@[i].1@),
{
    match j {
        Json::Object(members) => {
            proof {
                lemma_member_models_of(members@, members@.len() as int);
            }
            Some(members)
        },
        _ => None,
    }
}

/// The value of the member at `index`, where its name is `name`.
pub fn field<'a>(members: &'a Vec<(String, Json)>, index: usize, name: &str) -> (r: Option<
    &'a Json,
>)
    ensures
        r is Some <==> index < members@.len() && members@[index as int].0@ == name@,
        r is Some ==> *r->0 == members@[index as int].1,
{
    if index < members.len() && text_is(&members[index].0, name) {
        Some(&members[index].1)
    } else {
        None
    }
}

/// The name and the value of a structured value that is an object with
/// one member.
pub fn as_tagged(j: &Json) -> (r: Option<(&String, &Json)>)
    ensures
        r is Some <==> j@ is Object && j@->Object_0.len() == 1,
        r is Some ==> j@ == JsonModel::Object(seq![((r->0).0@, (r->0).1@)]),
        r is Some ==> j@->Object_0[0] == ((r->0).0@, (r->0).1@),
{
    match j {
        Json::Object(members) => {
            proof {
                lemma_member_models_of(members@, members@.len() as int);
            }
            if members.len() == 1 {
                assert(member_models_of(members@, 1) =~= seq![(members@[0].0@, members@[0].1@)]);
                Some((&members[0].0, &members[0].1))
            } else {
                None
            }
        },
        _ => None,
    }
}

} // verus!

verus! {

/// What the names of the wire form hold.
pub proof fn lemma_names()
    ensures
        "Console"@.len() == 7,
        "Stdout"@.len() == 6 && "Stdout"@[2] == 'd',
        "Stderr"@.len() == 6 && "Stderr"@[2] == 'd' && "Stdout"@[3] == 'o' && "Stderr"@[3] == 'e',
        "Debug"@.len() == 5 && "Debug"@[0] == 'D',
        "Request"@.len() == 7 && "Request"@[2] == 'q',
        "Response"@.len() == 8,
        "Event"@.len() == 5 && "Event"@[0] == 'E',
        "Breakpoint"@.len() == 10,
        "Step"@.len() == 4,
        "Pause"@.len() == 5 && "Pause"@[0] == 'P',
        "Exception"@.len() == 9,
        "Entry"@.len() == 5 && "Entry"@[0] == 'E' && "Entry"@[1] == 'n' && "Event"@[1] == 'v',
{
    reveal_strlit("Console");
    reveal_strlit("Stdout");
    reveal_strlit("Stderr");
    reveal_strlit("Debug");
    reveal_strlit("Request");
    reveal_strlit("Response");
    reveal_strlit("Event");
    reveal_strlit("Breakpoint");
    reveal_strlit("Step");
    reveal_strlit("Pause");
    reveal_strlit("Exception");
    reveal_strlit("Entry");
}

/// The stream of an output as a structured value: its name.
pub open spec fn category_json(c: OutputCategory) -> JsonModel {
    JsonModel::Text(
        match c {
            OutputCategory::Console => "Console"@,
            OutputCategory::Stdout => "Stdout"@,
            OutputCategory::Stderr => "Stderr"@,
            OutputCategory::Debug => "Debug"@,
        },
    )
}

pub fn category_to_json(c: OutputCategory) -> (j: Json)
    ensures
        j@ == category_json(c),
{
    match c {
        OutputCategory::Console => name_json("Console"),
        OutputCategory::Stdout => name_json("Stdout"),
        OutputCategory::Stderr => name_json("Stderr"),
        OutputCategory::Debug => name_json("Debug"),
    }
}

pub fn category_from_json(j: &Json) -> (r: Option<OutputCategory>)
    ensures
        r is Some ==> category_json(r->0) == j@,
        forall|c: OutputCategory| j@ == category_json(c) ==> r == Some(c),
{
    proof {
        lemma_names();
    }
    let name = match as_text(j) {
        Some(n) => n,
        None => {
            return None;
        },
    };
    if text_is(&name, "Console") {
        Some(OutputCategory::Console)
    } else if text_is(&name, "Stdout") {
        Some(OutputCategory::Stdout)
    } else if text_is(&name, "Stderr") {
        Some(OutputCategory::Stderr)
    } else if text_is(&name, "Debug") {
        Some(OutputCategory::Debug)
    } else {
        None
    }
}

/// The kind of a message as a structured value: its name.
pub open spec fn kind_json(t: MessageType) -> JsonModel {
    JsonModel::Text(
        match t {
            MessageType::Request => "Request"@,
            MessageType::Response => "Response"@,
            MessageType::Event => "Event"@,
        },
    )
}

pub fn kind_to_json(t: MessageType) -> (j: Json)
    ensures
        j@ == kind_json(t),
{
    match t {
        MessageType::Request => name_json("Request"),
        MessageType::Response => name_json("Response"),
        MessageType::Event => name_json("Event"),
    }
}

pub fn kind_from_json(j: &Json) -> (r: Option<MessageType>)
    ensures
        r is Some ==> kind_json(r->0) == j@,
        forall|t: MessageType| j@ == kind_json(t) ==> r == Some(t),
{
    proof {
        lemma_names();
    }
    let name = match as_text(j) {
        Some(n) => n,
        None => {
            return None;
        },
    };
    if text_is(&name, "Request") {
        Some(MessageType::Request)
    } else if text_is(&name, "Response") {
        Some(MessageType::Response)
    } else if text_is(&name, "Event") {
        Some(MessageType::Event)
    } else {
        None
    }
}

/// The reason of a stop as a structured value.
pub open spec fn reason_json(r: StopReason) -> JsonModel {
    match r {
        StopReason::Breakpoint { id } => tagged(
            "Breakpoint",
            JsonModel::Object(seq![("id"@, JsonModel::Number(id as u64))]),
        ),
        StopReason::Step => JsonModel::Text("Step"@),
        StopReason::Pause => JsonModel::Text("Pause"@),
        StopReason::Exception { description } => tagged(
            "Exception",
            JsonModel::Object(seq![("description"@, JsonModel::Text(description@))]),
        ),
        StopReason::Entry => JsonModel::Text("Entry"@),
    }
}

pub fn reason_to_json(r: &StopReason) -> (j: Json)
    ensures
        j@ == reason_json(*r),
{
    match r {
        StopReason::Breakpoint { id } => tagged_json(
            "Breakpoint",
            tagged_json("id", Json::Number(*id as u64)),
        ),
        StopReason::Step => name_json("Step"),
        StopReason::Pause => name_json("Pause"),
        StopReason::Exception { description } => tagged_json(
            "Exception",
            tagged_json("description", text_json(description)),
        ),
        StopReason::Entry => name_json("Entry"),
    }
}

pub fn reason_from_json(j: &Json) -> (r: Option<StopReason>)
    ensures
        r is Some ==> reason_json(r->0) == j@,
        forall|s: StopReason| j@ == reason_json(s) ==> r is Some,
{
    proof {
        lemma_names();
    }
    match as_text(j) {
        Some(name) => {
            if text_is(&name, "Step") {
                Some(StopReason::Step)
            } else if text_is(&name, "Pause") {
                Some(StopReason::Pause)
            } else if text_is(&name, "Entry") {
                Some(StopReason::Entry)
            } else {
                None
            }
        },
        None => {
            let (key, value) = match as_tagged(j) {
                Some(pair) => pair,
                None => {
                    return None;
                },
            };
            let (inner, detail) = match as_tagged(value) {
                Some(pair) => pair,
                None => {
                    return None;
                },
            };
            if text_is(key, "Breakpoint") {
                if !text_is(inner, "id") {
                    return None;
                }
                match as_usize(detail) {
                    Some(id) => Some(StopReason::Breakpoint { id }),
                    None => None,
                }
            } else if text_is(key, "Exception") {
                if !text_is(inner, "description") {
                    return None;
                }
                match as_text(detail) {
                    Some(description) => Some(StopReason::Exception { description }),
                    None => None,
                }
            } else {
                None
            }
        },
    }
}

/// A source file as a structured value.
pub open spec fn source_json(s: Source) -> JsonModel {
    JsonModel::Object(seq![("path"@, JsonModel::Text(s.path@)), ("name"@, JsonModel::Text(s.name@))])
}

pub fn source_to_json(s: &Source) -> (j: Json)
    ensures
        j@ == source_json(*s),
{
    let mut members: Vec<(String, Json)> = Vec::new();
    assert(built(members@) =~= Seq::<(Seq<char>, JsonModel)>::empty());
    add_member(&mut members, "path", text_json(&s.path));
    add_member(&mut members, "name", text_json(&s.name));
    assert(built(members@) =~= seq![
        ("path"@, JsonModel::Text(s.path@)),
        ("name"@, JsonModel::Text(s.name@)),
    ]);
    object_json(members)
}

pub fn source_from_json(j: &Json) -> (r: Option<Source>)
    ensures
        r is Some ==> source_json(r->0) == j@,
        forall|s: Source| j@ == source_json(s) ==> r is Some,
{
    let members = match as_object(j) {
        Some(m) => m,
        None => {
            return None;
        },
    };
    if members.len() != 2 {
        return None;
    }
    let path = match field(members, 0, "path") {
        Some(v) => match as_text(v) {
            Some(t) => t,
            None => {
                return None;
            },
        },
        None => {
            return None;
        },
    };
    let name = match field(members, 1, "name") {
        Some(v) => match as_text(v) {
            Some(t) => t,
            None => {
                return None;
            },
        },
        None => {
            return None;
        },
    };
    let source = Source { path, name };
    assert(built(members@) =~= seq![
        ("path"@, JsonModel::Text(source.path@)),
        ("name"@, JsonModel::Text(source.name@)),
    ]);
    Some(source)
}

/// An optional source file as a structured value.
pub open spec fn optional_source(s: Option<Source>) -> JsonModel {
    match s {
        Some(source) => source_json(source),
        None => JsonModel::Null,
    }
}

/// A variable as a structured value.
pub open spec fn variable_json(v: Variable) -> JsonModel {
    JsonModel::Object(
        seq![
            ("name"@, JsonModel::Text(v.name@)),
            ("value"@, JsonModel::Text(v.value@)),
            ("type_name"@, JsonModel::Text(v.type_label@)),
            ("variables_reference"@, JsonModel::Number(v.variables_reference as u64)),
        ],
    )
}

pub fn variable_to_json(v: &Variable) -> (j: Json)
    ensures
        j@ == variable_json(*v),
{
    let mut members: Vec<(String, Json)> = Vec::new();
    assert(built(members@) =~= Seq::<(Seq<char>, JsonModel)>::empty());
    add_member(&mut members, "name", text_json(&v.name));
    add_member(&mut members, "value", text_json(&v.value));
    add_member(&mut members, "type_name", text_json(&v.type_label));
    add_member(&mut members, "variables_reference", Json::Number(v.variables_reference as u64));
    assert(built(members@) =~= variable_json(*v)->Object_0);
    object_json(members)
}

pub fn variable_from_json(j: &Json) -> (r: Option<Variable>)
    ensures
        r is Some ==> variable_json(r->0) == j@,
        forall|v: Variable| j@ == variable_json(v) ==> r is Some,
{
    let members = match as_object(j) {
        Some(m) => m,
        None => {
            return None;
        },
    };
    if members.len() != 4 {
        return None;
    }
    let name = match field(members, 0, "name") {
        Some(v) => match as_text(v) {
            Some(t) => t,
            None => {
                return None;
            },
        },
        None => {
            return None;
        },
    };
    let value = match field(members, 1, "value") {
        Some(v) => match as_text(v) {
            Some(t) => t,
            None => {
                return None;
            },
        },
        None => {
            return None;
        },
    };
    let type_label = match field(members, 2, "type_name") {
        Some(v) => match as_text(v) {
            Some(t) => t,
            None => {
                return None;
            },
        },
        None => {
            return None;
        },
    };
    let variables_reference = match field(members, 3, "variables_reference") {
        Some(v) => match as_usize(v) {
            Some(n) => n,
            None => {
                return None;
            },
        },
        None => {
            return None;
        },
    };
    let variable = Variable { name, value, type_label, variables_reference };
    assert(built(members@) =~= variable_json(variable)->Object_0);
    Some(variable)
}

/// A frame as a structured value.
pub open spec fn frame_json(f: StackFrame) -> JsonModel {
    JsonModel::Object(
        seq![
            ("id"@, JsonModel::Number(f.id as u64)),
            ("name"@, JsonModel::Text(f.name@)),
            ("source"@, optional_source(f.source)),
            ("line"@, JsonModel::Number(f.line as u64)),
            ("column"@, JsonModel::Number(f.column as u64)),
            ("module"@, optional_text(f.module)),
        ],
    )
}

pub fn frame_to_json(f: &StackFrame) -> (j: Json)
    ensures
        j@ == frame_json(*f),
{
    let mut members: Vec<(String, Json)> = Vec::new();
    assert(built(members@) =~= Seq::<(Seq<char>, JsonModel)>::empty());
    add_member(&mut members, "id", Json::Number(f.id as u64));
    add_member(&mut members, "name", text_json(&f.name));
    let source = match &f.source {
        Some(s) => source_to_json(s),
        None => Json::Null,
    };
    add_member(&mut members, "source", source);
    add_member(&mut members, "line", Json::Number(f.line as u64));
    add_member(&mut members, "column", Json::Number(f.column as u64));
    add_member(&mut members, "module", optional_text_json(&f.module));
    assert(built(members@) =~= frame_json(*f)->Object_0);
    object_json(members)
}

/// An optional source file from a structured value.
pub fn optional_source_from_json(j: &Json) -> (r: Option<Option<Source>>)
    ensures
        r is Some ==> optional_source(r->0) == j@,
        forall|s: Option<Source>| j@ == optional_source(s) ==> r is Some,
{
    match j {
        Json::Null => Some(None),
        _ => match source_from_json(j) {
            Some(s) => Some(Some(s)),
            None => None,
        },
    }
}

pub fn frame_from_json(j: &Json) -> (r: Option<StackFrame>)
    ensures
        r is Some ==> frame_json(r->0) == j@,
        forall|f: StackFrame| j@ == frame_json(f) ==> r is Some,
{
    let members = match as_object(j) {
        Some(m) => m,
        None => {
            return None;
        },
    };
    if members.len() != 6 {
        return None;
    }
    let id = match field(members, 0, "id") {
        Some(v) => match as_usize(v) {
            Some(n) => n,
            None => {
                return None;
            },
        },
        None => {
            return None;
        },
    };
    let name = match field(members, 1, "name") {
        Some(v) => match as_text(v) {
            Some(t) => t,
            None => {
                return None;
            },
        },
        None => {
            return None;
        },
    };
    let source = match field(members, 2, "source") {
        Some(v) => match optional_source_from_json(v) {
            Some(s) => s,
            None => {
                return None;
            },
        },
        None => {
            return None;
        },
    };
    let line = match field(members, 3, "line") {
        Some(v) => match as_u32(v) {
            Some(n) => n,
            None => {
                return None;
            },
        },
        None => {
            return None;
        },
    };
    let column = match field(members, 4, "column") {
        Some(v) => match as_u32(v) {
            Some(n) => n,
            None => {
                return None;
            },
        },
        None => {
            return None;
        },
    };
    let module = match field(members, 5, "module") {
        Some(v) => match as_optional_text(v) {
            Some(t) => t,
            None => {
                return None;
            },
        },
        None => {
            return None;
        },
    };
    let frame = StackFrame { id, name, source, line, column, module };
    assert(built(members@) =~= frame_json(frame)->Object_0);
    Some(frame)
}

} // verus!

verus! {

} // verus!

verus! {

/// The members of a structured value that is an object with `count`
/// members.
pub fn fields_of(j: &Json, count: usize) -> (r: Option<&Vec<(String, Json)>>)
    ensures
        r is Some <==> j@ is Object && j@->Object_0.len() == count,
        r is Some ==> j@ == JsonModel::Object(built(r->0@)) && r->0@.len() == count && built(
            r->0@,
        ).len() == count && forall|i: int|
            0 <= i < count ==> #[trigger] built(r->0@)[i] == (r->0@[i].0@, r->0@[i].1@),
        r is Some && count > 0 ==> j@->Object_0[0] == (r->0@[0].0@, r->0@[0].1@),
{
    match as_object(j) {
        Some(members) => if members.len() == count {
            Some(members)
        } else {
            None
        },
        None => None,
    }
}

/// The text of the member at `index`, where its name is `name`.
pub fn text_field(members: &Vec<(String, Json)>, index: usize, name: &str) -> (r: Option<String>)
    ensures
        r is Some <==> index < members@.len() && members@[index as int].0@ == name@
            && members@[index as int].1@ is Text,
        r is Some ==> members@[index as int].1@ == JsonModel::Text(r->0@),
{
    match field(members, index, name) {
        Some(v) => as_text(v),
        None => None,
    }
}

/// The optional text of the member at `index`, where its name is `name`.
pub fn optional_text_field(members: &Vec<(String, Json)>, index: usize, name: &str) -> (r: Option<
    Option<String>,
>)
    ensures
        r is Some <==> index < members@.len() && members@[index as int].0@ == name@ && (
        members@[index as int].1@ is Text || members@[index as int].1@ is Null),
        r is Some ==> members@[index as int].1@ == optional_text(r->0),
{
    match field(members, index, name) {
        Some(v) => as_optional_text(v),
        None => None,
    }
}

/// The number of the member at `index`, where its name is `name`.
pub fn usize_field(members: &Vec<(String, Json)>, index: usize, name: &str) -> (r: Option<usize>)
    ensures
        r is Some <==> index < members@.len() && members@[index as int].0@ == name@
            && members@[index as int].1@ is Number && members@[index as int].1@->Number_0
            <= usize::MAX,
        r is Some ==> members@[index as int].1@ == JsonModel::Number(r->0 as u64),
{
    match field(members, index, name) {
        Some(v) => as_usize(v),
        None => None,
    }
}

/// The optional number of the member at `index`, where its name is
/// `name`.
pub fn optional_number_field(members: &Vec<(String, Json)>, index: usize, name: &str) -> (r:
    Option<Option<usize>>)
    ensures
        r is Some <==> index < members@.len() && members@[index as int].0@ == name@ && ((
        members@[index as int].1@ is Number && members@[index as int].1@->Number_0 <= usize::MAX)
            || members@[index as int].1@ is Null),
        r is Some ==> members@[index as int].1@ == optional_number(r->0),
{
    match field(members, index, name) {
        Some(v) => as_optional_number(v),
        None => None,
    }
}

/// The number of the member at `index`, where its name is `name`.
pub fn u32_field(members: &Vec<(String, Json)>, index: usize, name: &str) -> (r: Option<u32>)
    ensures
        r is Some <==> index < members@.len() && members@[index as int].0@ == name@
            && members@[index as int].1@ is Number && members@[index as int].1@->Number_0
            <= u32::MAX,
        r is Some ==> members@[index as int].1@ == JsonModel::Number(r->0 as u64),
{
    match field(members, index, name) {
        Some(v) => as_u32(v),
        None => None,
    }
}

/// The truth value of the member at `index`, where its name is `name`.
pub fn bool_field(members: &Vec<(String, Json)>, index: usize, name: &str) -> (r: Option<bool>)
    ensures
        r is Some <==> index < members@.len() && members@[index as int].0@ == name@
            && members@[index as int].1@ is Bool,
        r is Some ==> members@[index as int].1@ == JsonModel::Bool(r->0),
{
    match field(members, index, name) {
        Some(v) => as_bool(v),
        None => None,
    }
}

/// One member as an object.
pub open spec fn record1(a: (&str, JsonModel)) -> JsonModel {
    JsonModel::Object(seq![(a.0@, a.1)])
}

/// Two members as an object.
pub open spec fn record2(a: (&str, JsonModel), b: (&str, JsonModel)) -> JsonModel {
    JsonModel::Object(seq![(a.0@, a.1), (b.0@, b.1)])
}

/// Three members as an object.
pub open spec fn record3(a: (&str, JsonModel), b: (&str, JsonModel), c: (&str, JsonModel)) -> JsonModel {
    JsonModel::Object(seq![(a.0@, a.1), (b.0@, b.1), (c.0@, c.1)])
}

/// Four members as an object.
pub open spec fn record4(
    a: (&str, JsonModel),
    b: (&str, JsonModel),
    c: (&str, JsonModel),
    d: (&str, JsonModel),
) -> JsonModel {
    JsonModel::Object(seq![(a.0@, a.1), (b.0@, b.1), (c.0@, c.1), (d.0@, d.1)])
}

/// One member as an object.
pub fn record1_json(name: &str, value: Json) -> (j: Json)
    ensures
        j@ == record1((name, value@)),
{
    tagged_json(name, value)
}

/// Two members as an object.
pub fn record2_json(a: &str, x: Json, b: &str, y: Json) -> (j: Json)
    ensures
        j@ == record2((a, x@), (b, y@)),
{
    let mut members: Vec<(String, Json)> = Vec::new();
    assert(built(members@) =~= Seq::<(Seq<char>, JsonModel)>::empty());
    add_member(&mut members, a, x);
    add_member(&mut members, b, y);
    assert(built(members@) =~= seq![(a@, x@), (b@, y@)]);
    object_json(members)
}

/// Three members as an object.
pub fn record3_json(a: &str, x: Json, b: &str, y: Json, c: &str, z: Json) -> (j: Json)
    ensures
        j@ == record3((a, x@), (b, y@), (c, z@)),
{
    let mut members: Vec<(String, Json)> = Vec::new();
    assert(built(members@) =~= Seq::<(Seq<char>, JsonModel)>::empty());
    add_member(&mut members, a, x);
    add_member(&mut members, b, y);
    add_member(&mut members, c, z);
    assert(built(members@) =~= seq![(a@, x@), (b@, y@), (c@, z@)]);
    object_json(members)
}

/// Four members as an object.
pub fn record4_json(a: &str, x: Json, b: &str, y: Json, c: &str, z: Json, d: &str, w: Json) -> (j:
    Json)
    ensures
        j@ == record4((a, x@), (b, y@), (c, z@), (d, w@)),
{
    let mut members: Vec<(String, Json)> = Vec::new();
    assert(built(members@) =~= Seq::<(Seq<char>, JsonModel)>::empty());
    add_member(&mut members, a, x);
    add_member(&mut members, b, y);
    add_member(&mut members, c, z);
    add_member(&mut members, d, w);
    assert(built(members@) =~= seq![(a@, x@), (b@, y@), (c@, z@), (d@, w@)]);
    object_json(members)
}

/// A number as a structured value.
pub open spec fn number(n: int) -> JsonModel {
    JsonModel::Number(n as u64)
}

/// A text as a structured value.
pub open spec fn text(s: String) -> JsonModel {
    JsonModel::Text(s@)
}

/// The fields of a command that has fields, as a structured value.
pub open spec fn command_fields(c: DebugCommand) -> JsonModel {
    match c {
        DebugCommand::Launch { program, args, working_dir } => record3(
            ("program", text(program)),
            ("args", texts(args@)),
            ("working_dir", optional_text(working_dir)),
        ),
        DebugCommand::Attach { pid } => record1(("pid", number(pid as int))),
        DebugCommand::SetBreakpoint { file, line, condition, log_message } => record4(
            ("file", text(file)),
            ("line", number(line as int)),
            ("condition", optional_text(condition)),
            ("log_message", optional_text(log_message)),
        ),
        DebugCommand::RemoveBreakpoint { id } => record1(("id", number(id as int))),
        DebugCommand::ReadMemory { address, size } => record2(
            ("address", number(address as int)),
            ("size", number(size as int)),
        ),
        DebugCommand::WriteMemory { address, data } => record2(
            ("address", number(address as int)),
            ("data", numbers(data@)),
        ),
        DebugCommand::GetVariables { frame_id } => record1(("frame_id", number(frame_id as int))),
        DebugCommand::Evaluate { expression, frame_id } => record2(
            ("expression", text(expression)),
            ("frame_id", optional_number(frame_id)),
        ),
        DebugCommand::SetVariable { frame_id, name, value } => record3(
            ("frame_id", number(frame_id as int)),
            ("name", text(name)),
            ("value", text(value)),
        ),
        _ => JsonModel::Null,
    }
}

/// The name of the variant of a command.
pub open spec fn command_name(c: DebugCommand) -> Seq<char> {
    match c {
        DebugCommand::Launch { .. } => "Launch"@,
        DebugCommand::Attach { .. } => "Attach"@,
        DebugCommand::Continue => "Continue"@,
        DebugCommand::StepInto => "StepInto"@,
        DebugCommand::StepOver => "StepOver"@,
        DebugCommand::StepOut => "StepOut"@,
        DebugCommand::Pause => "Pause"@,
        DebugCommand::SetBreakpoint { .. } => "SetBreakpoint"@,
        DebugCommand::RemoveBreakpoint { .. } => "RemoveBreakpoint"@,
        DebugCommand::ReadMemory { .. } => "ReadMemory"@,
        DebugCommand::WriteMemory { .. } => "WriteMemory"@,
        DebugCommand::GetStackTrace => "GetStackTrace"@,
        DebugCommand::GetVariables { .. } => "GetVariables"@,
        DebugCommand::Evaluate { .. } => "Evaluate"@,
        DebugCommand::SetVariable { .. } => "SetVariable"@,
        DebugCommand::Disconnect => "Disconnect"@,
    }
}

/// Whether a command has fields.
pub open spec fn command_has_fields(c: DebugCommand) -> bool {
    !(c is Continue || c is StepInto || c is StepOver || c is StepOut || c is Pause
        || c is GetStackTrace || c is Disconnect)
}

/// A command as a structured value: the name of its variant, or an
/// object with its fields under that name.
pub open spec fn command_json(c: DebugCommand) -> JsonModel {
    if command_has_fields(c) {
        JsonModel::Object(seq![(command_name(c), command_fields(c))])
    } else {
        JsonModel::Text(command_name(c))
    }
}

pub fn command_to_json(c: &DebugCommand) -> (j: Json)
    ensures
        j@ == command_json(*c),
{
    match c {
        DebugCommand::Launch { program, args, working_dir } => tagged_json(
            "Launch",
            record3_json(
                "program",
                text_json(program),
                "args",
                texts_json(args),
                "working_dir",
                optional_text_json(working_dir),
            ),
        ),
        DebugCommand::Attach { pid } => tagged_json(
            "Attach",
            record1_json("pid", Json::Number(*pid as u64)),
        ),
        DebugCommand::Continue => name_json("Continue"),
        DebugCommand::StepInto => name_json("StepInto"),
        DebugCommand::StepOver => name_json("StepOver"),
        DebugCommand::StepOut => name_json("StepOut"),
        DebugCommand::Pause => name_json("Pause"),
        DebugCommand::SetBreakpoint { file, line, condition, log_message } => tagged_json(
            "SetBreakpoint",
            record4_json(
                "file",
                text_json(file),
                "line",
                Json::Number(*line as u64),
                "condition",
                optional_text_json(condition),
                "log_message",
                optional_text_json(log_message),
            ),
        ),
        DebugCommand::RemoveBreakpoint { id } => tagged_json(
            "RemoveBreakpoint",
            record1_json("id", Json::Number(*id as u64)),
        ),
        DebugCommand::ReadMemory { address, size } => tagged_json(
            "ReadMemory",
            record2_json("address", Json::Number(*address as u64), "size", Json::Number(*size as u64)),
        ),
        DebugCommand::WriteMemory { address, data } => tagged_json(
            "WriteMemory",
            record2_json("address", Json::Number(*address as u64), "data", numbers_json(data)),
        ),
        DebugCommand::GetStackTrace => name_json("GetStackTrace"),
        DebugCommand::GetVariables { frame_id } => tagged_json(
            "GetVariables",
            record1_json("frame_id", Json::Number(*frame_id as u64)),
        ),
        DebugCommand::Evaluate { expression, frame_id } => tagged_json(
            "Evaluate",
            record2_json(
                "expression",
                text_json(expression),
                "frame_id",
                optional_number_json(*frame_id),
            ),
        ),
        DebugCommand::SetVariable { frame_id, name, value } => tagged_json(
            "SetVariable",
            record3_json(
                "frame_id",
                Json::Number(*frame_id as u64),
                "name",
                text_json(name),
                "value",
                text_json(value),
            ),
        ),
        DebugCommand::Disconnect => name_json("Disconnect"),
    }
}

} // verus!

verus! {

/// What tells the names of the commands with fields apart.
pub proof fn lemma_command_names()
    ensures
        "Launch"@.len() == 6 && "Launch"@[0] == 'L',
        "Attach"@.len() == 6 && "Attach"@[0] == 'A',
        "SetBreakpoint"@.len() == 13,
        "RemoveBreakpoint"@.len() == 16,
        "ReadMemory"@.len() == 10,
        "WriteMemory"@.len() == 11 && "WriteMemory"@[0] == 'W',
        "GetVariables"@.len() == 12,
        "Evaluate"@.len() == 8,
        "SetVariable"@.len() == 11 && "SetVariable"@[0] == 'S',
{
    reveal_strlit("Launch");
    reveal_strlit("Attach");
    reveal_strlit("SetBreakpoint");
    reveal_strlit("RemoveBreakpoint");
    reveal_strlit("ReadMemory");
    reveal_strlit("WriteMemory");
    reveal_strlit("GetVariables");
    reveal_strlit("Evaluate");
    reveal_strlit("SetVariable");
}

/// Commands with the same name are of the same variant.
pub proof fn lemma_same_name_same_command(a: DebugCommand, b: DebugCommand)
    requires
        command_name(a) == command_name(b),
    ensures
        a is Launch <==> b is Launch,
        a is Attach <==> b is Attach,
        a is Continue <==> b is Continue,
        a is StepInto <==> b is StepInto,
        a is StepOver <==> b is StepOver,
        a is StepOut <==> b is StepOut,
        a is Pause <==> b is Pause,
        a is SetBreakpoint <==> b is SetBreakpoint,
        a is RemoveBreakpoint <==> b is RemoveBreakpoint,
        a is ReadMemory <==> b is ReadMemory,
        a is WriteMemory <==> b is WriteMemory,
        a is GetStackTrace <==> b is GetStackTrace,
        a is GetVariables <==> b is GetVariables,
        a is Evaluate <==> b is Evaluate,
        a is SetVariable <==> b is SetVariable,
        a is Disconnect <==> b is Disconnect,
{
    reveal_strlit("Launch");
    reveal_strlit("Attach");
    reveal_strlit("Continue");
    reveal_strlit("StepInto");
    reveal_strlit("StepOver");
    reveal_strlit("StepOut");
    reveal_strlit("Pause");
    reveal_strlit("SetBreakpoint");
    reveal_strlit("RemoveBreakpoint");
    reveal_strlit("ReadMemory");
    reveal_strlit("WriteMemory");
    reveal_strlit("GetStackTrace");
    reveal_strlit("GetVariables");
    reveal_strlit("Evaluate");
    reveal_strlit("SetVariable");
    reveal_strlit("Disconnect");
    let x = command_name(a);
    let y = command_name(b);
    assert(x.len() == y.len());
    assert(x[0] == y[0]);
    assert(x[4] == y[4]);
}

/// Commands with the same structured form are of the same variant.
pub proof fn lemma_same_form_same_command(a: DebugCommand, b: DebugCommand)
    requires
        command_json(a) == command_json(b),
    ensures
        command_name(a) == command_name(b),
{
    if command_has_fields(a) {
        assert(command_json(a)->Object_0[0] == command_json(b)->Object_0[0]);
    }
}

fn launch_from_json(value: &Json) -> (r: Option<DebugCommand>)
    ensures
        r is Some ==> r->0 is Launch && command_fields(r->0) == value@,
        forall|c: DebugCommand| c is Launch && command_fields(c) == value@ ==> r is Some,
{
    let members = match fields_of(value, 3) {
        Some(m) => m,
        None => {
            return None;
        },
    };
    let program = match text_field(members, 0, "program") {
        Some(v) => v,
        None => {
            return None;
        },
    };
    let args = match field(members, 1, "args") {
        Some(v) => match as_texts(v) {
            Some(a) => a,
            None => {
                return None;
            },
        },
        None => {
            return None;
        },
    };
    let working_dir = match optional_text_field(members, 2, "working_dir") {
        Some(v) => v,
        None => {
            return None;
        },
    };
    let command = DebugCommand::Launch { program, args, working_dir };
    assert(built(members@) =~= command_fields(command)->Object_0);
    Some(command)
}

fn attach_from_json(value: &Json) -> (r: Option<DebugCommand>)
    ensures
        r is Some ==> r->0 is Attach && command_fields(r->0) == value@,
        forall|c: DebugCommand| c is Attach && command_fields(c) == value@ ==> r is Some,
{
    let members = match fields_of(value, 1) {
        Some(m) => m,
        None => {
            return None;
        },
    };
    let pid = match u32_field(members, 0, "pid") {
        Some(v) => v,
        None => {
            return None;
        },
    };
    let command = DebugCommand::Attach { pid };
    assert(built(members@) =~= command_fields(command)->Object_0);
    Some(command)
}

fn set_breakpoint_from_json(value: &Json) -> (r: Option<DebugCommand>)
    ensures
        r is Some ==> r->0 is SetBreakpoint && command_fields(r->0) == value@,
        forall|c: DebugCommand| c is SetBreakpoint && command_fields(c) == value@ ==> r is Some,
{
    let members = match fields_of(value, 4) {
        Some(m) => m,
        None => {
            return None;
        },
    };
    let file = match text_field(members, 0, "file") {
        Some(v) => v,
        None => {
            return None;
        },
    };
    let line = match u32_field(members, 1, "line") {
        Some(v) => v,
        None => {
            return None;
        },
    };
    let condition = match optional_text_field(members, 2, "condition") {
        Some(v) => v,
        None => {
            return None;
        },
    };
    let log_message = match optional_text_field(members, 3, "log_message") {
        Some(v) => v,
        None => {
            return None;
        },
    };
    let command = DebugCommand::SetBreakpoint { file, line, condition, log_message };
    assert(built(members@) =~= command_fields(command)->Object_0);
    Some(command)
}

fn remove_breakpoint_from_json(value: &Json) -> (r: Option<DebugCommand>)
    ensures
        r is Some ==> r->0 is RemoveBreakpoint && command_fields(r->0) == value@,
        forall|c: DebugCommand| c is RemoveBreakpoint && command_fields(c) == value@ ==> r is Some,
{
    let members = match fields_of(value, 1) {
        Some(m) => m,
        None => {
            return None;
        },
    };
    let id = match usize_field(members, 0, "id") {
        Some(v) => v,
        None => {
            return None;
        },
    };
    let command = DebugCommand::RemoveBreakpoint { id };
    assert(built(members@) =~= command_fields(command)->Object_0);
    Some(command)
}

fn read_memory_from_json(value: &Json) -> (r: Option<DebugCommand>)
    ensures
        r is Some ==> r->0 is ReadMemory && command_fields(r->0) == value@,
        forall|c: DebugCommand| c is ReadMemory && command_fields(c) == value@ ==> r is Some,
{
    let members = match fields_of(value, 2) {
        Some(m) => m,
        None => {
            return None;
        },
    };
    let address = match usize_field(members, 0, "address") {
        Some(v) => v,
        None => {
            return None;
        },
    };
    let size = match usize_field(members, 1, "size") {
        Some(v) => v,
        None => {
            return None;
        },
    };
    let command = DebugCommand::ReadMemory { address, size };
    assert(built(members@) =~= command_fields(command)->Object_0);
    Some(command)
}

fn write_memory_from_json(value: &Json) -> (r: Option<DebugCommand>)
    ensures
        r is Some ==> r->0 is WriteMemory && command_fields(r->0) == value@,
        forall|c: DebugCommand| c is WriteMemory && command_fields(c) == value@ ==> r is Some,
{
    let members = match fields_of(value, 2) {
        Some(m) => m,
        None => {
            return None;
        },
    };
    let address = match usize_field(members, 0, "address") {
        Some(v) => v,
        None => {
            return None;
        },
    };
    let data = match field(members, 1, "data") {
        Some(v) => match as_numbers(v) {
            Some(d) => d,
            None => {
                return None;
            },
        },
        None => {
            return None;
        },
    };
    let command = DebugCommand::WriteMemory { address, data };
    assert(built(members@) =~= command_fields(command)->Object_0);
    Some(command)
}

fn get_variables_from_json(value: &Json) -> (r: Option<DebugCommand>)
    ensures
        r is Some ==> r->0 is GetVariables && command_fields(r->0) == value@,
        forall|c: DebugCommand| c is GetVariables && command_fields(c) == value@ ==> r is Some,
{
    let members = match fields_of(value, 1) {
        Some(m) => m,
        None => {
            return None;
        },
    };
    let frame_id = match usize_field(members, 0, "frame_id") {
        Some(v) => v,
        None => {
            return None;
        },
    };
    let command = DebugCommand::GetVariables { frame_id };
    assert(built(members@) =~= command_fields(command)->Object_0);
    Some(command)
}

fn evaluate_from_json(value: &Json) -> (r: Option<DebugCommand>)
    ensures
        r is Some ==> r->0 is Evaluate && command_fields(r->0) == value@,
        forall|c: DebugCommand| c is Evaluate && command_fields(c) == value@ ==> r is Some,
{
    let members = match fields_of(value, 2) {
        Some(m) => m,
        None => {
            return None;
        },
    };
    let expression = match text_field(members, 0, "expression") {
        Some(v) => v,
        None => {
            return None;
        },
    };
    let frame_id = match optional_number_field(members, 1, "frame_id") {
        Some(v) => v,
        None => {
            return None;
        },
    };
    let command = DebugCommand::Evaluate { expression, frame_id };
    assert(built(members@) =~= command_fields(command)->Object_0);
    Some(command)
}

fn set_variable_from_json(value: &Json) -> (r: Option<DebugCommand>)
    ensures
        r is Some ==> r->0 is SetVariable && command_fields(r->0) == value@,
        forall|c: DebugCommand| c is SetVariable && command_fields(c) == value@ ==> r is Some,
{
    let members = match fields_of(value, 3) {
        Some(m) => m,
        None => {
            return None;
        },
    };
    let frame_id = match usize_field(members, 0, "frame_id") {
        Some(v) => v,
        None => {
            return None;
        },
    };
    let name = match text_field(members, 1, "name") {
        Some(v) => v,
        None => {
            return None;
        },
    };
    let value = match text_field(members, 2, "value") {
        Some(v) => v,
        None => {
            return None;
        },
    };
    let command = DebugCommand::SetVariable { frame_id, name, value };
    assert(built(members@) =~= command_fields(command)->Object_0);
    Some(command)
}

/// The command without fields that has this name.
fn command_by_name(name: &String) -> (r: Option<DebugCommand>)
    ensures
        r is Some ==> !command_has_fields(r->0) && command_name(r->0) == name@,
        forall|c: DebugCommand| !command_has_fields(c) && command_name(c) == name@ ==> r is Some,
{
    if text_is(name, "Continue") {
        Some(DebugCommand::Continue)
    } else if text_is(name, "StepInto") {
        Some(DebugCommand::StepInto)
    } else if text_is(name, "StepOver") {
        Some(DebugCommand::StepOver)
    } else if text_is(name, "StepOut") {
        Some(DebugCommand::StepOut)
    } else if text_is(name, "Pause") {
        Some(DebugCommand::Pause)
    } else if text_is(name, "GetStackTrace") {
        Some(DebugCommand::GetStackTrace)
    } else if text_is(name, "Disconnect") {
        Some(DebugCommand::Disconnect)
    } else {
        None
    }
}

/// The command with fields that has this name and these fields.
fn command_by_fields(key: &String, value: &Json) -> (r: Option<DebugCommand>)
    ensures
        r is Some ==> command_has_fields(r->0) && command_name(r->0) == key@ && command_fields(
            r->0,
        ) == value@,
        forall|c: DebugCommand|
            command_has_fields(c) && command_name(c) == key@ && command_fields(c) == value@
                ==> r is Some,
{
    proof {
        lemma_command_names();
    }
    if text_is(key, "Launch") {
        launch_from_json(value)
    } else if text_is(key, "Attach") {
        attach_from_json(value)
    } else if text_is(key, "SetBreakpoint") {
        set_breakpoint_from_json(value)
    } else if text_is(key, "RemoveBreakpoint") {
        remove_breakpoint_from_json(value)
    } else if text_is(key, "ReadMemory") {
        read_memory_from_json(value)
    } else if text_is(key, "WriteMemory") {
        write_memory_from_json(value)
    } else if text_is(key, "GetVariables") {
        get_variables_from_json(value)
    } else if text_is(key, "Evaluate") {
        evaluate_from_json(value)
    } else if text_is(key, "SetVariable") {
        set_variable_from_json(value)
    } else {
        None
    }
}

pub fn command_from_json(j: &Json) -> (r: Option<DebugCommand>)
    ensures
        r is Some ==> command_json(r->0) == j@,
        forall|c: DebugCommand| j@ == command_json(c) ==> r is Some,
{
    match as_text(j) {
        Some(name) => command_by_name(&name),
        None => match as_tagged(j) {
            Some((key, value)) => command_by_fields(key, value),
            None => None,
        },
    }
}

} // verus!

verus! {

/// What tells the names of the events apart.
pub proof fn lemma_event_names()
    ensures
        "Started"@.len() == 7 && "Started"@[2] == 'a',
        "Stopped"@.len() == 7 && "Stopped"@[2] == 'o',
        "Breakpoint"@.len() == 10,
        "Output"@.len() == 6,
        "ThreadCreated"@.len() == 13,
        "ThreadExited"@.len() == 12 && "ThreadExited"@[0] == 'T',
        "ModuleLoaded"@.len() == 12 && "ModuleLoaded"@[0] == 'M',
        "Error"@.len() == 5,
{
    reveal_strlit("Started");
    reveal_strlit("Stopped");
    reveal_strlit("Breakpoint");
    reveal_strlit("Output");
    reveal_strlit("ThreadCreated");
    reveal_strlit("ThreadExited");
    reveal_strlit("ModuleLoaded");
    reveal_strlit("Error");
}

/// The name of the variant of an event.
pub open spec fn event_name(e: DebugEvent) -> Seq<char> {
    match e {
        DebugEvent::Started { .. } => "Started"@,
        DebugEvent::Stopped { .. } => "Stopped"@,
        DebugEvent::Breakpoint { .. } => "Breakpoint"@,
        DebugEvent::Output { .. } => "Output"@,
        DebugEvent::ThreadCreated { .. } => "ThreadCreated"@,
        DebugEvent::ThreadExited { .. } => "ThreadExited"@,
        DebugEvent::ModuleLoaded { .. } => "ModuleLoaded"@,
        DebugEvent::Error { .. } => "Error"@,
    }
}

/// The fields of an event as a structured value.
pub open spec fn event_fields(e: DebugEvent) -> JsonModel {
    match e {
        DebugEvent::Started { pid } => record1(("pid", number(pid as int))),
        DebugEvent::Stopped { reason, thread_id, frame_id } => record3(
            ("reason", reason_json(reason)),
            ("thread_id", number(thread_id as int)),
            ("frame_id", optional_number(frame_id)),
        ),
        DebugEvent::Breakpoint { id, verified, message } => record3(
            ("id", number(id as int)),
            ("verified", JsonModel::Bool(verified)),
            ("message", optional_text(message)),
        ),
        DebugEvent::Output { category, message } => record2(
            ("category", category_json(category)),
            ("message", text(message)),
        ),
        DebugEvent::ThreadCreated { thread_id } => record1(("thread_id", number(thread_id as int))),
        DebugEvent::ThreadExited { thread_id } => record1(("thread_id", number(thread_id as int))),
        DebugEvent::ModuleLoaded { name, path } => record2(("name", text(name)), ("path", text(path))),
        DebugEvent::Error { message } => record1(("message", text(message))),
    }
}

/// An event as a structured value: an object with its fields under the
/// name of its variant.
pub open spec fn event_json(e: DebugEvent) -> JsonModel {
    JsonModel::Object(seq![(event_name(e), event_fields(e))])
}

pub fn event_to_json(e: &DebugEvent) -> (j: Json)
    ensures
        j@ == event_json(*e),
{
    match e {
        DebugEvent::Started { pid } => tagged_json(
            "Started",
            record1_json("pid", Json::Number(*pid as u64)),
        ),
        DebugEvent::Stopped { reason, thread_id, frame_id } => tagged_json(
            "Stopped",
            record3_json(
                "reason",
                reason_to_json(reason),
                "thread_id",
                Json::Number(*thread_id as u64),
                "frame_id",
                optional_number_json(*frame_id),
            ),
        ),
        DebugEvent::Breakpoint { id, verified, message } => tagged_json(
            "Breakpoint",
            record3_json(
                "id",
                Json::Number(*id as u64),
                "verified",
                Json::Bool(*verified),
                "message",
                optional_text_json(message),
            ),
        ),
        DebugEvent::Output { category, message } => tagged_json(
            "Output",
            record2_json("category", category_to_json(*category), "message", text_json(message)),
        ),
        DebugEvent::ThreadCreated { thread_id } => tagged_json(
            "ThreadCreated",
            record1_json("thread_id", Json::Number(*thread_id as u64)),
        ),
        DebugEvent::ThreadExited { thread_id } => tagged_json(
            "ThreadExited",
            record1_json("thread_id", Json::Number(*thread_id as u64)),
        ),
        DebugEvent::ModuleLoaded { name, path } => tagged_json(
            "ModuleLoaded",
            record2_json("name", text_json(name), "path", text_json(path)),
        ),
        DebugEvent::Error { message } => tagged_json(
            "Error",
            record1_json("message", text_json(message)),
        ),
    }
}

fn started_from_json(value: &Json) -> (r: Option<DebugEvent>)
    ensures
        r is Some ==> r->0 is Started && event_fields(r->0) == value@,
        forall|e: DebugEvent| e is Started && event_fields(e) == value@ ==> r is Some,
{
    let members = match fields_of(value, 1) {
        Some(m) => m,
        None => {
            return None;
        },
    };
    let pid = match u32_field(members, 0, "pid") {
        Some(v) => v,
        None => {
            return None;
        },
    };
    let event = DebugEvent::Started { pid };
    assert(built(members@) =~= event_fields(event)->Object_0);
    Some(event)
}

fn stopped_from_json(value: &Json) -> (r: Option<DebugEvent>)
    ensures
        r is Some ==> r->0 is Stopped && event_fields(r->0) == value@,
        forall|e: DebugEvent| e is Stopped && event_fields(e) == value@ ==> r is Some,
{
    let members = match fields_of(value, 3) {
        Some(m) => m,
        None => {
            return None;
        },
    };
    let reason = match field(members, 0, "reason") {
        Some(v) => match reason_from_json(v) {
            Some(s) => s,
            None => {
                return None;
            },
        },
        None => {
            return None;
        },
    };
    let thread_id = match u32_field(members, 1, "thread_id") {
        Some(v) => v,
        None => {
            return None;
        },
    };
    let frame_id = match optional_number_field(members, 2, "frame_id") {
        Some(v) => v,
        None => {
            return None;
        },
    };
    let event = DebugEvent::Stopped { reason, thread_id, frame_id };
    assert(built(members@) =~= event_fields(event)->Object_0);
    Some(event)
}

fn breakpoint_from_json(value: &Json) -> (r: Option<DebugEvent>)
    ensures
        r is Some ==> r->0 is Breakpoint && event_fields(r->0) == value@,
        forall|e: DebugEvent| e is Breakpoint && event_fields(e) == value@ ==> r is Some,
{
    let members = match fields_of(value, 3) {
        Some(m) => m,
        None => {
            return None;
        },
    };
    let id = match usize_field(members, 0, "id") {
        Some(v) => v,
        None => {
            return None;
        },
    };
    let verified = match bool_field(members, 1, "verified") {
        Some(v) => v,
        None => {
            return None;
        },
    };
    let message = match optional_text_field(members, 2, "message") {
        Some(v) => v,
        None => {
            return None;
        },
    };
    let event = DebugEvent::Breakpoint { id, verified, message };
    assert(built(members@) =~= event_fields(event)->Object_0);
    Some(event)
}

fn output_from_json(value: &Json) -> (r: Option<DebugEvent>)
    ensures
        r is Some ==> r->0 is Output && event_fields(r->0) == value@,
        forall|e: DebugEvent| e is Output && event_fields(e) == value@ ==> r is Some,
{
    let members = match fields_of(value, 2) {
        Some(m) => m,
        None => {
            return None;
        },
    };
    let category = match field(members, 0, "category") {
        Some(v) => match category_from_json(v) {
            Some(c) => c,
            None => {
                return None;
            },
        },
        None => {
            return None;
        },
    };
    let message = match text_field(members, 1, "message") {
        Some(v) => v,
        None => {
            return None;
        },
    };
    let event = DebugEvent::Output { category, message };
    assert(built(members@) =~= event_fields(event)->Object_0);
    Some(event)
}

fn thread_from_json(value: &Json, created: bool) -> (r: Option<DebugEvent>)
    ensures
        r is Some ==> (if created {
            r->0 is ThreadCreated
        } else {
            r->0 is ThreadExited
        }) && event_fields(r->0) == value@,
        forall|e: DebugEvent|
            (if created {
                e is ThreadCreated
            } else {
                e is ThreadExited
            }) && event_fields(e) == value@ ==> r is Some,
{
    let members = match fields_of(value, 1) {
        Some(m) => m,
        None => {
            return None;
        },
    };
    let thread_id = match u32_field(members, 0, "thread_id") {
        Some(v) => v,
        None => {
            return None;
        },
    };
    let event = if created {
        DebugEvent::ThreadCreated { thread_id }
    } else {
        DebugEvent::ThreadExited { thread_id }
    };
    assert(built(members@) =~= event_fields(event)->Object_0);
    Some(event)
}

fn module_loaded_from_json(value: &Json) -> (r: Option<DebugEvent>)
    ensures
        r is Some ==> r->0 is ModuleLoaded && event_fields(r->0) == value@,
        forall|e: DebugEvent| e is ModuleLoaded && event_fields(e) == value@ ==> r is Some,
{
    let members = match fields_of(value, 2) {
        Some(m) => m,
        None => {
            return None;
        },
    };
    let name = match text_field(members, 0, "name") {
        Some(v) => v,
        None => {
            return None;
        },
    };
    let path = match text_field(members, 1, "path") {
        Some(v) => v,
        None => {
            return None;
        },
    };
    let event = DebugEvent::ModuleLoaded { name, path };
    assert(built(members@) =~= event_fields(event)->Object_0);
    Some(event)
}

fn error_from_json(value: &Json) -> (r: Option<DebugEvent>)
    ensures
        r is Some ==> r->0 is Error && event_fields(r->0) == value@,
        forall|e: DebugEvent| e is Error && event_fields(e) == value@ ==> r is Some,
{
    let members = match fields_of(value, 1) {
        Some(m) => m,
        None => {
            return None;
        },
    };
    let message = match text_field(members, 0, "message") {
        Some(v) => v,
        None => {
            return None;
        },
    };
    let event = DebugEvent::Error { message };
    assert(built(members@) =~= event_fields(event)->Object_0);
    Some(event)
}

/// The event that has this name and these fields.
fn event_by_fields(key: &String, value: &Json) -> (r: Option<DebugEvent>)
    ensures
        r is Some ==> event_name(r->0) == key@ && event_fields(r->0) == value@,
        forall|e: DebugEvent| event_name(e) == key@ && event_fields(e) == value@ ==> r is Some,
{
    proof {
        lemma_event_names();
    }
    if text_is(key, "Started") {
        started_from_json(value)
    } else if text_is(key, "Stopped") {
        stopped_from_json(value)
    } else if text_is(key, "Breakpoint") {
        breakpoint_from_json(value)
    } else if text_is(key, "Output") {
        output_from_json(value)
    } else if text_is(key, "ThreadCreated") {
        thread_from_json(value, true)
    } else if text_is(key, "ThreadExited") {
        thread_from_json(value, false)
    } else if text_is(key, "ModuleLoaded") {
        module_loaded_from_json(value)
    } else if text_is(key, "Error") {
        error_from_json(value)
    } else {
        None
    }
}

pub fn event_from_json(j: &Json) -> (r: Option<DebugEvent>)
    ensures
        r is Some ==> event_json(r->0) == j@,
        forall|e: DebugEvent| j@ == event_json(e) ==> r is Some,
{
    match as_tagged(j) {
        Some((key, value)) => event_by_fields(key, value),
        None => None,
    }
}

/// What a debugger can do, as a structured value.
pub open spec fn capabilities_json(c: DebuggerCapabilities) -> JsonModel {
    JsonModel::Object(
        seq![
            ("supports_step_back"@, JsonModel::Bool(c.supports_step_back)),
            ("supports_restart_frame"@, JsonModel::Bool(c.supports_restart_frame)),
            ("supports_goto_targets"@, JsonModel::Bool(c.supports_goto_targets)),
            ("supports_evaluate_for_hovers"@, JsonModel::Bool(c.supports_evaluate_for_hovers)),
            (
                "supports_conditional_breakpoints"@,
                JsonModel::Bool(c.supports_conditional_breakpoints),
            ),
            ("supports_log_points"@, JsonModel::Bool(c.supports_log_points)),
            ("supports_set_variable"@, JsonModel::Bool(c.supports_set_variable)),
            ("supports_completions"@, JsonModel::Bool(c.supports_completions)),
            ("supports_modules"@, JsonModel::Bool(c.supports_modules)),
            ("supports_memory_references"@, JsonModel::Bool(c.supports_memory_references)),
            ("supports_value_formatting"@, JsonModel::Bool(c.supports_value_formatting)),
        ],
    )
}

/// Adds a truth value to an object that is being built.
fn add_flag(members: &mut Vec<(String, Json)>, name: &str, value: bool)
    ensures
        built(final(members)@) == built(old(members)@).push((name@, JsonModel::Bool(value))),
{
    add_member(members, name, Json::Bool(value));
}

/// The first four capabilities.
fn capabilities_first(c: &DebuggerCapabilities) -> (members: Vec<(String, Json)>)
    ensures
        built(members@) == seq![
            ("supports_step_back"@, JsonModel::Bool(c.supports_step_back)),
            ("supports_restart_frame"@, JsonModel::Bool(c.supports_restart_frame)),
            ("supports_goto_targets"@, JsonModel::Bool(c.supports_goto_targets)),
            ("supports_evaluate_for_hovers"@, JsonModel::Bool(c.supports_evaluate_for_hovers)),
        ],
{
    let mut members: Vec<(String, Json)> = Vec::new();
    assert(built(members@) =~= Seq::<(Seq<char>, JsonModel)>::empty());
    add_flag(&mut members, "supports_step_back", c.supports_step_back);
    add_flag(&mut members, "supports_restart_frame", c.supports_restart_frame);
    add_flag(&mut members, "supports_goto_targets", c.supports_goto_targets);
    add_flag(&mut members, "supports_evaluate_for_hovers", c.supports_evaluate_for_hovers);
    members
}

/// The first eight capabilities.
fn capabilities_second(c: &DebuggerCapabilities) -> (members: Vec<(String, Json)>)
    ensures
        built(members@) == seq![
            ("supports_step_back"@, JsonModel::Bool(c.supports_step_back)),
            ("supports_restart_frame"@, JsonModel::Bool(c.supports_restart_frame)),
            ("supports_goto_targets"@, JsonModel::Bool(c.supports_goto_targets)),
            ("supports_evaluate_for_hovers"@, JsonModel::Bool(c.supports_evaluate_for_hovers)),
            ("supports_conditional_breakpoints"@, JsonModel::Bool(c.supports_conditional_breakpoints)),
            ("supports_log_points"@, JsonModel::Bool(c.supports_log_points)),
            ("supports_set_variable"@, JsonModel::Bool(c.supports_set_variable)),
            ("supports_completions"@, JsonModel::Bool(c.supports_completions)),
        ],
{
    let mut members = capabilities_first(c);
    add_flag(&mut members, "supports_conditional_breakpoints", c.supports_conditional_breakpoints);
    add_flag(&mut members, "supports_log_points", c.supports_log_points);
    add_flag(&mut members, "supports_set_variable", c.supports_set_variable);
    add_flag(&mut members, "supports_completions", c.supports_completions);
    members
}

pub fn capabilities_to_json(c: &DebuggerCapabilities) -> (j: Json)
    ensures
        j@ == capabilities_json(*c),
{
    let mut members = capabilities_second(c);
    add_flag(&mut members, "supports_modules", c.supports_modules);
    add_flag(&mut members, "supports_memory_references", c.supports_memory_references);
    add_flag(&mut members, "supports_value_formatting", c.supports_value_formatting);
    assert(built(members@) =~= capabilities_json(*c)->Object_0);
    object_json(members)
}

pub fn capabilities_from_json(j: &Json) -> (r: Option<DebuggerCapabilities>)
    ensures
        r is Some ==> capabilities_json(r->0) == j@,
        forall|c: DebuggerCapabilities| j@ == capabilities_json(c) ==> r is Some,
{
    let members = match fields_of(j, 11) {
        Some(m) => m,
        None => {
            return None;
        },
    };
    let supports_step_back = match bool_field(members, 0, "supports_step_back") {
        Some(v) => v,
        None => {
            return None;
        },
    };
    let supports_restart_frame = match bool_field(members, 1, "supports_restart_frame") {
        Some(v) => v,
        None => {
            return None;
        },
    };
    let supports_goto_targets = match bool_field(members, 2, "supports_goto_targets") {
        Some(v) => v,
        None => {
            return None;
        },
    };
    let supports_evaluate_for_hovers = match bool_field(
        members,
        3,
        "supports_evaluate_for_hovers",
    ) {
        Some(v) => v,
        None => {
            return None;
        },
    };
    let supports_conditional_breakpoints = match bool_field(
        members,
        4,
        "supports_conditional_breakpoints",
    ) {
        Some(v) => v,
        None => {
            return None;
        },
    };
    let supports_log_points = match bool_field(members, 5, "supports_log_points") {
        Some(v) => v,
        None => {
            return None;
        },
    };
    let supports_set_variable = match bool_field(members, 6, "supports_set_variable") {
        Some(v) => v,
        None => {
            return None;
        },
    };
    let supports_completions = match bool_field(members, 7, "supports_completions") {
        Some(v) => v,
        None => {
            return None;
        },
    };
    let supports_modules = match bool_field(members, 8, "supports_modules") {
        Some(v) => v,
        None => {
            return None;
        },
    };
    let supports_memory_references = match bool_field(members, 9, "supports_memory_references") {
        Some(v) => v,
        None => {
            return None;
        },
    };
    let supports_value_formatting = match bool_field(members, 10, "supports_value_formatting") {
        Some(v) => v,
        None => {
            return None;
        },
    };
    let capabilities = DebuggerCapabilities {
        supports_step_back,
        supports_restart_frame,
        supports_goto_targets,
        supports_evaluate_for_hovers,
        supports_conditional_breakpoints,
        supports_log_points,
        supports_set_variable,
        supports_completions,
        supports_modules,
        supports_memory_references,
        supports_value_formatting,
    };
    assert(built(members@) =~= capabilities_json(capabilities)->Object_0);
    Some(capabilities)
}

} // verus!

verus! {

/// Frames as an array.
pub open spec fn frames_json(frames: Seq<StackFrame>) -> JsonModel {
    JsonModel::Array(Seq::new(frames.len(), |i: int| frame_json(frames[i])))
}

/// Variables as an array.
pub open spec fn variables_json(variables: Seq<Variable>) -> JsonModel {
    JsonModel::Array(Seq::new(variables.len(), |i: int| variable_json(variables[i])))
}

pub fn frames_to_json(frames: &Vec<StackFrame>) -> (j: Json)
    ensures
        j@ == frames_json(frames@),
{
    let mut out: Vec<Json> = Vec::new();
    let mut i: usize = 0;
    while i < frames.len()
        invariant
            i <= frames@.len(),
            out@.len() == i,
            forall|k: int| 0 <= k < i ==> (#[trigger] out@[k])@ == frame_json(frames@[k]),
        decreases frames@.len() - i,
    {
        out.push(frame_to_json(&frames[i]));
        i += 1;
    }
    proof {
        lemma_models_of(out@, out@.len() as int);
        assert(models_of(out@, out@.len() as int) =~= Seq::new(
            frames@.len(),
            |i: int| frame_json(frames@[i]),
        ));
    }
    Json::Array(out)
}

pub fn variables_to_json(variables: &Vec<Variable>) -> (j: Json)
    ensures
        j@ == variables_json(variables@),
{
    let mut out: Vec<Json> = Vec::new();
    let mut i: usize = 0;
    while i < variables.len()
        invariant
            i <= variables@.len(),
            out@.len() == i,
            forall|k: int| 0 <= k < i ==> (#[trigger] out@[k])@ == variable_json(variables@[k]),
        decreases variables@.len() - i,
    {
        out.push(variable_to_json(&variables[i]));
        i += 1;
    }
    proof {
        lemma_models_of(out@, out@.len() as int);
        assert(models_of(out@, out@.len() as int) =~= Seq::new(
            variables@.len(),
            |i: int| variable_json(variables@[i]),
        ));
    }
    Json::Array(out)
}

pub fn frames_from_json(j: &Json) -> (r: Option<Vec<StackFrame>>)
    ensures
        r is Some ==> frames_json(r->0@) == j@,
        forall|frames: Seq<StackFrame>| j@ == frames_json(frames) ==> r is Some,
{
    let items = match j {
        Json::Array(items) => items,
        _ => {
            return None;
        },
    };
    proof {
        lemma_models_of(items@, items@.len() as int);
    }
    let mut out: Vec<StackFrame> = Vec::new();
    let mut i: usize = 0;
    while i < items.len()
        invariant
            i <= items@.len(),
            out@.len() == i,
            j@ == JsonModel::Array(models_of(items@, items@.len() as int)),
            models_of(items@, items@.len() as int).len() == items@.len(),
            forall|k: int|
                0 <= k < items@.len() ==> #[trigger] models_of(items@, items@.len() as int)[k]
                    == items@[k]@,
            forall|k: int| 0 <= k < i ==> (#[trigger] items@[k])@ == frame_json(out@[k]),
        decreases items@.len() - i,
    {
        match frame_from_json(&items[i]) {
            Some(frame) => {
                out.push(frame);
            },
            None => {
                assert forall|frames: Seq<StackFrame>| j@ != frames_json(frames) by {
                    if j@ == frames_json(frames) {
                        assert(frames_json(frames)->Array_0[i as int] == frame_json(
                            frames[i as int],
                        ));
                        assert(models_of(items@, items@.len() as int)[i as int] == items@[i as int]@);
                    }
                }
                return None;
            },
        }
        i += 1;
    }
    proof {
        assert(models_of(items@, items@.len() as int) =~= Seq::new(
            out@.len(),
            |i: int| frame_json(out@[i]),
        ));
    }
    Some(out)
}

pub fn variables_from_json(j: &Json) -> (r: Option<Vec<Variable>>)
    ensures
        r is Some ==> variables_json(r->0@) == j@,
        forall|variables: Seq<Variable>| j@ == variables_json(variables) ==> r is Some,
{
    let items = match j {
        Json::Array(items) => items,
        _ => {
            return None;
        },
    };
    proof {
        lemma_models_of(items@, items@.len() as int);
    }
    let mut out: Vec<Variable> = Vec::new();
    let mut i: usize = 0;
    while i < items.len()
        invariant
            i <= items@.len(),
            out@.len() == i,
            j@ == JsonModel::Array(models_of(items@, items@.len() as int)),
            models_of(items@, items@.len() as int).len() == items@.len(),
            forall|k: int|
                0 <= k < items@.len() ==> #[trigger] models_of(items@, items@.len() as int)[k]
                    == items@[k]@,
            forall|k: int| 0 <= k < i ==> (#[trigger] items@[k])@ == variable_json(out@[k]),
        decreases items@.len() - i,
    {
        match variable_from_json(&items[i]) {
            Some(variable) => {
                out.push(variable);
            },
            None => {
                assert forall|variables: Seq<Variable>| j@ != variables_json(variables) by {
                    if j@ == variables_json(variables) {
                        assert(variables_json(variables)->Array_0[i as int] == variable_json(
                            variables[i as int],
                        ));
                        assert(models_of(items@, items@.len() as int)[i as int] == items@[i as int]@);
                    }
                }
                return None;
            },
        }
        i += 1;
    }
    proof {
        assert(models_of(items@, items@.len() as int) =~= Seq::new(
            out@.len(),
            |i: int| variable_json(out@[i]),
        ));
    }
    Some(out)
}

/// The name of the variant of a result.
pub open spec fn body_name(b: ResponseBody) -> Seq<char> {
    match b {
        ResponseBody::StackTrace(_) => "StackTrace"@,
        ResponseBody::Variables(_) => "Variables"@,
        ResponseBody::Memory(_) => "Memory"@,
        ResponseBody::Evaluate(_) => "Evaluate"@,
        ResponseBody::Capabilities(_) => "Capabilities"@,
    }
}

/// What a result carries, as a structured value.
pub open spec fn body_value(b: ResponseBody) -> JsonModel {
    match b {
        ResponseBody::StackTrace(frames) => frames_json(frames@),
        ResponseBody::Variables(variables) => variables_json(variables@),
        ResponseBody::Memory(bytes) => numbers(bytes@),
        ResponseBody::Evaluate(value) => text(value),
        ResponseBody::Capabilities(c) => capabilities_json(c),
    }
}

/// A result as a structured value: what it carries, under the name of
/// its variant.
pub open spec fn body_json(b: ResponseBody) -> JsonModel {
    JsonModel::Object(seq![(body_name(b), body_value(b))])
}

/// An optional result as a structured value.
pub open spec fn optional_body(b: Option<ResponseBody>) -> JsonModel {
    match b {
        Some(body) => body_json(body),
        None => JsonModel::Null,
    }
}

pub fn body_to_json(b: &ResponseBody) -> (j: Json)
    ensures
        j@ == body_json(*b),
{
    match b {
        ResponseBody::StackTrace(frames) => tagged_json("StackTrace", frames_to_json(frames)),
        ResponseBody::Variables(variables) => tagged_json(
            "Variables",
            variables_to_json(variables),
        ),
        ResponseBody::Memory(bytes) => tagged_json("Memory", numbers_json(bytes)),
        ResponseBody::Evaluate(value) => tagged_json("Evaluate", text_json(value)),
        ResponseBody::Capabilities(c) => tagged_json("Capabilities", capabilities_to_json(c)),
    }
}

/// What tells the names of the results apart.
pub proof fn lemma_body_names()
    ensures
        "StackTrace"@.len() == 10,
        "Variables"@.len() == 9,
        "Memory"@.len() == 6,
        "Evaluate"@.len() == 8,
        "Capabilities"@.len() == 12,
        "Command"@.len() == 7,
        "Event"@.len() == 5,
        "Response"@.len() == 8,
{
    reveal_strlit("StackTrace");
    reveal_strlit("Variables");
    reveal_strlit("Memory");
    reveal_strlit("Evaluate");
    reveal_strlit("Capabilities");
    reveal_strlit("Command");
    reveal_strlit("Event");
    reveal_strlit("Response");
}

/// The result that has this name and carries this value.
fn body_by_value(key: &String, value: &Json) -> (r: Option<ResponseBody>)
    ensures
        r is Some ==> body_name(r->0) == key@ && body_value(r->0) == value@,
        forall|b: ResponseBody| body_name(b) == key@ && body_value(b) == value@ ==> r is Some,
{
    proof {
        lemma_body_names();
    }
    if text_is(key, "StackTrace") {
        match frames_from_json(value) {
            Some(frames) => Some(ResponseBody::StackTrace(frames)),
            None => None,
        }
    } else if text_is(key, "Variables") {
        match variables_from_json(value) {
            Some(variables) => Some(ResponseBody::Variables(variables)),
            None => None,
        }
    } else if text_is(key, "Memory") {
        match as_numbers(value) {
            Some(bytes) => Some(ResponseBody::Memory(bytes)),
            None => None,
        }
    } else if text_is(key, "Evaluate") {
        match as_text(value) {
            Some(result) => Some(ResponseBody::Evaluate(result)),
            None => None,
        }
    } else if text_is(key, "Capabilities") {
        match capabilities_from_json(value) {
            Some(c) => Some(ResponseBody::Capabilities(c)),
            None => None,
        }
    } else {
        None
    }
}

pub fn body_from_json(j: &Json) -> (r: Option<ResponseBody>)
    ensures
        r is Some ==> body_json(r->0) == j@,
        forall|b: ResponseBody| j@ == body_json(b) ==> r is Some,
{
    match as_tagged(j) {
        Some((key, value)) => body_by_value(key, value),
        None => None,
    }
}

/// An optional result from a structured value.
pub fn optional_body_from_json(j: &Json) -> (r: Option<Option<ResponseBody>>)
    ensures
        r is Some ==> optional_body(r->0) == j@,
        forall|b: Option<ResponseBody>| j@ == optional_body(b) ==> r is Some,
{
    match j {
        Json::Null => Some(None),
        _ => match body_from_json(j) {
            Some(b) => Some(Some(b)),
            None => None,
        },
    }
}

/// The name of the variant of what a message carries.
pub open spec fn content_name(c: MessageContent) -> Seq<char> {
    match c {
        MessageContent::Command(_) => "Command"@,
        MessageContent::Event(_) => "Event"@,
        MessageContent::Response { .. } => "Response"@,
    }
}

/// What a message carries, without the name of its variant.
pub open spec fn content_value(c: MessageContent) -> JsonModel {
    match c {
        MessageContent::Command(command) => command_json(command),
        MessageContent::Event(event) => event_json(event),
        MessageContent::Response { request_seq, success, message, body } => record4(
            ("request_seq", JsonModel::Number(request_seq)),
            ("success", JsonModel::Bool(success)),
            ("message", optional_text(message)),
            ("body", optional_body(body)),
        ),
    }
}

/// What a message carries, as a structured value.
pub open spec fn content_json(c: MessageContent) -> JsonModel {
    JsonModel::Object(seq![(content_name(c), content_value(c))])
}

pub fn content_to_json(c: &MessageContent) -> (j: Json)
    ensures
        j@ == content_json(*c),
{
    match c {
        MessageContent::Command(command) => tagged_json("Command", command_to_json(command)),
        MessageContent::Event(event) => tagged_json("Event", event_to_json(event)),
        MessageContent::Response { request_seq, success, message, body } => {
            let result = match body {
                Some(b) => body_to_json(b),
                None => Json::Null,
            };
            tagged_json(
                "Response",
                record4_json(
                    "request_seq",
                    Json::Number(*request_seq),
                    "success",
                    Json::Bool(*success),
                    "message",
                    optional_text_json(message),
                    "body",
                    result,
                ),
            )
        },
    }
}

fn response_from_json(value: &Json) -> (r: Option<MessageContent>)
    ensures
        r is Some ==> r->0 is Response && content_value(r->0) == value@,
        forall|c: MessageContent| c is Response && content_value(c) == value@ ==> r is Some,
{
    let members = match fields_of(value, 4) {
        Some(m) => m,
        None => {
            return None;
        },
    };
    let request_seq = match field(members, 0, "request_seq") {
        Some(v) => match as_number(v) {
            Some(n) => n,
            None => {
                return None;
            },
        },
        None => {
            return None;
        },
    };
    let success = match bool_field(members, 1, "success") {
        Some(v) => v,
        None => {
            return None;
        },
    };
    let message = match optional_text_field(members, 2, "message") {
        Some(v) => v,
        None => {
            return None;
        },
    };
    let body = match field(members, 3, "body") {
        Some(v) => match optional_body_from_json(v) {
            Some(b) => b,
            None => {
                return None;
            },
        },
        None => {
            return None;
        },
    };
    let content = MessageContent::Response { request_seq, success, message, body };
    assert(built(members@) =~= content_value(content)->Object_0);
    Some(content)
}

/// What a message carries under this name.
fn content_by_value(key: &String, value: &Json) -> (r: Option<MessageContent>)
    ensures
        r is Some ==> content_name(r->0) == key@ && content_value(r->0) == value@,
        forall|c: MessageContent| content_name(c) == key@ && content_value(c) == value@ ==> r is Some,
{
    proof {
        lemma_body_names();
    }
    if text_is(key, "Command") {
        match command_from_json(value) {
            Some(command) => Some(MessageContent::Command(command)),
            None => None,
        }
    } else if text_is(key, "Event") {
        match event_from_json(value) {
            Some(event) => Some(MessageContent::Event(event)),
            None => None,
        }
    } else if text_is(key, "Response") {
        response_from_json(value)
    } else {
        None
    }
}

pub fn content_from_json(j: &Json) -> (r: Option<MessageContent>)
    ensures
        r is Some ==> content_json(r->0) == j@,
        forall|c: MessageContent| j@ == content_json(c) ==> r is Some,
{
    match as_tagged(j) {
        Some((key, value)) => content_by_value(key, value),
        None => None,
    }
}

/// A message as a structured value: its sequence number, its kind and
/// what it carries.
pub open spec fn message_json(m: ProtocolMessage) -> JsonModel {
    record3(
        ("seq", JsonModel::Number(m.seq)),
        ("typ", kind_json(m.typ)),
        ("content", content_json(m.content)),
    )
}

pub fn message_to_json(m: &ProtocolMessage) -> (j: Json)
    ensures
        j@ == message_json(*m),
{
    record3_json(
        "seq",
        Json::Number(m.seq),
        "typ",
        kind_to_json(m.typ),
        "content",
        content_to_json(&m.content),
    )
}

pub fn message_from_json(j: &Json) -> (r: Option<ProtocolMessage>)
    ensures
        r is Some ==> message_json(r->0) == j@,
        forall|m: ProtocolMessage| j@ == message_json(m) ==> r is Some,
{
    let members = match fields_of(j, 3) {
        Some(m) => m,
        None => {
            return None;
        },
    };
    let seq = match field(members, 0, "seq") {
        Some(v) => match as_number(v) {
            Some(n) => n,
            None => {
                return None;
            },
        },
        None => {
            return None;
        },
    };
    let typ = match field(members, 1, "typ") {
        Some(v) => match kind_from_json(v) {
            Some(t) => t,
            None => {
                return None;
            },
        },
        None => {
            return None;
        },
    };
    let content = match field(members, 2, "content") {
        Some(v) => match content_from_json(v) {
            Some(c) => c,
            None => {
                return None;
            },
        },
        None => {
            return None;
        },
    };
    let message = ProtocolMessage { seq, typ, content };
    assert(built(members@) =~= message_json(message)->Object_0);
    Some(message)
}

} // verus!

verus! {

/// The text of a message on the wire.
pub open spec fn message_text(m: ProtocolMessage) -> Seq<u8> {
    json_text(message_json(m))
}

/// The structured form of a message is read back from its text.
pub proof fn lemma_message_round_trip(m: ProtocolMessage)
    ensures
        parse_value(message_text(m)) == Some((message_json(m), message_text(m).len() as int)),
{
    lemma_text_round_trip(message_json(m));
}

/// Messages with the same structured form have the same sequence number
/// and are of the same kind.
pub proof fn lemma_same_form_same_header(a: ProtocolMessage, b: ProtocolMessage)
    requires
        message_json(a) == message_json(b),
    ensures
        a.seq == b.seq,
        a.typ == b.typ,
        content_json(a.content) == content_json(b.content),
{
    lemma_names();
    let x = message_json(a)->Object_0;
    let y = message_json(b)->Object_0;
    assert(x[0] == y[0]);
    assert(x[1] == y[1]);
    assert(x[2] == y[2]);
}

/// Messages with the same structured form carry the same kind of thing:
/// a command, an event or a response.
pub proof fn lemma_same_form_same_content(a: ProtocolMessage, b: ProtocolMessage)
    requires
        message_json(a) == message_json(b),
    ensures
        a.content is Command <==> b.content is Command,
        a.content is Event <==> b.content is Event,
        a.content is Response <==> b.content is Response,
        a.content is Command ==> command_name(a.content->Command_0) == command_name(
            b.content->Command_0,
        ),
{
    lemma_same_form_same_header(a, b);
    lemma_body_names();
    let x = content_json(a.content)->Object_0;
    let y = content_json(b.content)->Object_0;
    assert(x[0] == y[0]);
    assert(content_name(a.content) == content_name(b.content));
    if a.content is Command {
        assert(content_value(a.content) == content_value(b.content));
        lemma_same_form_same_command(a.content->Command_0, b.content->Command_0);
    }
}

/// The text of a message.
pub fn encode_message(m: &ProtocolMessage) -> (bytes: Vec<u8>)
    ensures
        bytes@ == message_text(*m),
{
    let j = message_to_json(m);
    to_text(&j)
}

/// Whether a text holds the message `m`: whether it is the text of the
/// structured form of `m`, be it in another spelling than the one that
/// `encode_message` writes.
pub open spec fn holds(bytes: Seq<u8>, m: ProtocolMessage) -> bool {
    parse_value(bytes) == Some((message_json(m), bytes.len() as int))
}

/// The message that a text holds.  The text of any message gives a
/// message with the same structured form: encoding and then decoding
/// loses nothing.  A text that holds no message is an error of
/// serialization.
pub fn decode_message(bytes: &[u8]) -> (r: Result<ProtocolMessage, ProtocolError>)
    ensures
        r is Ok ==> holds(bytes@, r->Ok_0),
        r is Err ==> r->Err_0 == ProtocolError::Serialization && forall|m: ProtocolMessage|
            !holds(bytes@, m),
        forall|m: ProtocolMessage|
            bytes@ == message_text(m) ==> r is Ok && message_json(r->Ok_0) == message_json(m),
{
    assert forall|m: ProtocolMessage| bytes@ == message_text(m) implies holds(bytes@, m) by {
        lemma_message_round_trip(m);
    }
    let j = match from_text(bytes) {
        Some(j) => j,
        None => {
            return Err(ProtocolError::Serialization);
        },
    };
    match message_from_json(&j) {
        Some(message) => Ok(message),
        None => Err(ProtocolError::Serialization),
    }
}

/// The frame of a message: the length of its text and the text.  A
/// message whose text has more than `u32::MAX` bytes has no frame.
pub fn pack_message(m: &ProtocolMessage) -> (r: Result<Vec<u8>, ProtocolError>)
    ensures
        message_text(*m).len() <= u32::MAX ==> r is Ok && r->Ok_0@ == framed(message_text(*m)),
        message_text(*m).len() > u32::MAX ==> r == Err::<Vec<u8>, ProtocolError>(
            ProtocolError::Serialization,
        ),
{
    let text = encode_message(m);
    encode_frame(text.as_slice())
}

/// What the start of a buffer of received bytes holds.
pub enum Unpacked {
    /// No whole frame yet: at least `missing` more bytes are needed.
    Incomplete { missing: usize },
    /// A message, whose frame takes up `consumed` bytes.
    Message { message: ProtocolMessage, consumed: usize },
    /// A frame of `consumed` bytes that holds no message.
    Malformed { consumed: usize },
}

/// The number of bytes that the frame at the start of a buffer takes up:
/// the four bytes of its length and the bytes that it announces.
pub open spec fn frame_size(buffer: Seq<u8>) -> int {
    4 + announced(buffer)
}

/// Whether the start of a buffer holds the frame of `message`, which
/// takes up `consumed` bytes.
pub open spec fn holds_message(buffer: Seq<u8>, message: ProtocolMessage, consumed: int) -> bool {
    &&& buffer.len() >= 4
    &&& consumed == 4 + announced(buffer)
    &&& consumed <= buffer.len()
    &&& holds(buffer.subrange(4, consumed), message)
}

/// Takes the first message off a buffer of received bytes.  The frame of
/// any message, whatever follows it, gives a message with the same
/// structured form and the length of the frame.
pub fn unpack_message(buffer: &[u8]) -> (r: Unpacked)
    ensures
        r is Incomplete <==> buffer@.len() < 4 || buffer@.len() - 4 < announced(buffer@),
        r is Incomplete ==> decodes(buffer@, Decoded::Incomplete { missing: r->missing }),
        r matches Unpacked::Message { message, consumed } ==> holds_message(
            buffer@,
            message,
            consumed as int,
        ),
        r matches Unpacked::Malformed { consumed } ==> consumed == frame_size(buffer@)
            && forall|m: ProtocolMessage| !#[trigger] holds_message(buffer@, m, frame_size(buffer@)),
        forall|m: ProtocolMessage, rest: Seq<u8>|
            message_text(m).len() <= u32::MAX && buffer@ == #[trigger] (framed(message_text(m))
                + rest) ==> r is Message && message_json(r->message) == message_json(m)
                && r->Message_consumed == framed(message_text(m)).len(),
{
    match decode_frame(buffer) {
        Decoded::Incomplete { missing } => {
            assert forall|m: ProtocolMessage, rest: Seq<u8>|
                message_text(m).len() <= u32::MAX implies buffer@ != #[trigger] (framed(
                message_text(m),
            ) + rest) by {
                lemma_frame_round_trip(message_text(m), rest);
            }
            Unpacked::Incomplete { missing }
        },
        Decoded::Frame { payload, consumed } => {
            let decoded = decode_message(payload.as_slice());
            proof {
                assert forall|m: ProtocolMessage, rest: Seq<u8>|
                    message_text(m).len() <= u32::MAX && buffer@ == #[trigger] (framed(
                        message_text(m),
                    ) + rest) implies payload@ == message_text(m) && consumed == framed(
                    message_text(m),
                ).len() by {
                    lemma_frame_round_trip(message_text(m), rest);
                }
            }
            match decoded {
                Ok(message) => Unpacked::Message { message, consumed },
                Err(_) => Unpacked::Malformed { consumed },
            }
        },
    }
}

} // verus!
