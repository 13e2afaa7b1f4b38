//! Upper bounds on the length of the text of structured values: what a
//! number, a text and an object with short names take up at most.
use crate::debugger::remote::codec::{
    body_json, body_name, body_value, capabilities_json, content_json, content_name,
    content_value, frames_json, kind_json, message_json, message_text, optional_body,
    optional_text,
};
use crate::debugger::remote::json::{
    decimal_bytes, escaped, escaped_byte, json_text, members_text, quoted, utf8, JsonModel,
};
use crate::debugger::remote::protocol::{
    DebuggerCapabilities, MessageContent, ProtocolMessage, ResponseBody,
};
use vstd::prelude::*;
use vstd::utf8::encode_utf8;

verus! {

/// Ten to the power of `k`.
pub open spec fn power_of_ten(k: nat) -> nat
    decreases k,
{
    if k == 0 {
        1
    } else {
        10 * power_of_ten((k - 1) as nat)
    }
}

/// A number below ten to the power of `k` has at most `k` digits.
pub proof fn lemma_digits(n: nat, k: nat)
    requires
        k >= 1,
        n < power_of_ten(k),
    ensures
        decimal_bytes(n).len() <= k,
    decreases k,
{
    if n >= 10 {
        assert(power_of_ten(1) == 10) by {
            reveal_with_fuel(power_of_ten, 2);
        }
        assert(k >= 2);
        lemma_digits(n / 10, (k - 1) as nat);
    }
}

/// A number of 64 bits has at most twenty digits.
pub proof fn lemma_number_size(n: u64)
    ensures
        json_text(JsonModel::Number(n)).len() <= 20,
{
    assert(power_of_ten(5) == 100000) by {
        reveal_with_fuel(power_of_ten, 6);
    }
    assert(power_of_ten(10) == 100000 * power_of_ten(5)) by {
        reveal_with_fuel(power_of_ten, 6);
    }
    assert(power_of_ten(15) == 100000 * power_of_ten(10)) by {
        reveal_with_fuel(power_of_ten, 6);
    }
    assert(power_of_ten(20) == 100000 * power_of_ten(15)) by {
        reveal_with_fuel(power_of_ten, 6);
    }
    lemma_digits(n as nat, 20);
}

/// Between quotes a byte takes up at most six bytes.
pub proof fn lemma_escaped_size(bytes: Seq<u8>)
    ensures
        escaped(bytes).len() <= 6 * bytes.len(),
    decreases bytes.len(),
{
    if bytes.len() > 0 {
        lemma_escaped_size(bytes.drop_first());
        assert(escaped_byte(bytes[0]).len() <= 6);
    }
}

/// A character is encoded in at most four bytes.
pub proof fn lemma_encoded_size(text: Seq<char>)
    ensures
        encode_utf8(text).len() <= 4 * text.len(),
    decreases text.len(),
{
    if text.len() > 0 {
        lemma_encoded_size(text.drop_first());
    }
}

/// A text between quotes takes up at most two bytes and twenty-four for
/// each of its characters.
pub proof fn lemma_quoted_size(text: Seq<char>)
    ensures
        quoted(text).len() <= 2 + 24 * text.len(),
        json_text(JsonModel::Text(text)).len() <= 2 + 24 * text.len(),
{
    reveal(utf8);
    lemma_encoded_size(text);
    lemma_escaped_size(utf8(text));
}

/// The members of an object from `from` on take up at most one byte and,
/// for each member, what its name and its value take up at most.
pub proof fn lemma_members_size(
    members: Seq<(Seq<char>, JsonModel)>,
    from: int,
    name_bound: nat,
    value_bound: nat,
)
    requires
        0 <= from <= members.len(),
        forall|i: int|
            0 <= i < members.len() ==> (#[trigger] members[i]).0.len() <= name_bound && json_text(
                members[i].1,
            ).len() <= value_bound,
    ensures
        members_text(members, from).len() <= 1 + (members.len() - from) * (4 + 24 * name_bound
            + value_bound),
    decreases members.len() - from,
{
    let each = 4 + 24 * name_bound + value_bound;
    if from < members.len() {
        lemma_members_size(members, from + 1, name_bound, value_bound);
        lemma_quoted_size(members[from].0);
        assert(json_text(members[from].1).len() <= value_bound);
        assert((members.len() - from) * each == (members.len() - (from + 1)) * each + each)
            by (nonlinear_arith);
    } else {
        assert((members.len() - from) * each == 0) by (nonlinear_arith)
            requires
                members.len() - from == 0,
        ;
    }
}

/// An object takes up at most two bytes and, for each member, what its
/// name and its value take up at most.
pub proof fn lemma_object_size(
    members: Seq<(Seq<char>, JsonModel)>,
    name_bound: nat,
    value_bound: nat,
)
    requires
        forall|i: int|
            0 <= i < members.len() ==> (#[trigger] members[i]).0.len() <= name_bound && json_text(
                members[i].1,
            ).len() <= value_bound,
    ensures
        json_text(JsonModel::Object(members)).len() <= 2 + members.len() * (4 + 24 * name_bound
            + value_bound),
{
    lemma_members_size(members, 0, name_bound, value_bound);
}

/// The longest message with which a failed command is answered, in
/// characters.
pub const FAILURE_TEXT_LIMIT: usize = 64;

/// Whether a response carries what this debugger answers with: no
/// message or a short one, and no result, the capabilities or an empty
/// stack trace.
pub open spec fn is_short_response(response: ProtocolMessage) -> bool {
    response.content matches MessageContent::Response { message, body, .. } && (message matches Some(
        text,
    ) ==> text@.len() <= FAILURE_TEXT_LIMIT) && (body matches Some(b) ==> b is Capabilities || (
    b matches ResponseBody::StackTrace(frames) && frames@.len() == 0))
}

/// The capabilities take up fewer than ten thousand bytes.
pub proof fn lemma_capabilities_size(c: DebuggerCapabilities)
    ensures
        json_text(capabilities_json(c)).len() <= 8549,
{
    reveal_strlit("supports_step_back");
    reveal_strlit("supports_restart_frame");
    reveal_strlit("supports_goto_targets");
    reveal_strlit("supports_evaluate_for_hovers");
    reveal_strlit("supports_conditional_breakpoints");
    reveal_strlit("supports_log_points");
    reveal_strlit("supports_set_variable");
    reveal_strlit("supports_completions");
    reveal_strlit("supports_modules");
    reveal_strlit("supports_memory_references");
    reveal_strlit("supports_value_formatting");
    let members = capabilities_json(c)->Object_0;
    assert(members.len() == 11);
    assert forall|i: int| 0 <= i < members.len() implies (#[trigger] members[i]).0.len() <= 32
        && json_text(members[i].1).len() <= 5 by {
        assert(members[i].1 is Bool);
    }
    lemma_object_size(members, 32, 5);
}

/// The result of a short response takes up fewer than ten thousand
/// bytes.
pub proof fn lemma_body_size(body: Option<ResponseBody>)
    requires
        body matches Some(b) ==> b is Capabilities || (b matches ResponseBody::StackTrace(frames)
            && frames@.len() == 0),
    ensures
        json_text(optional_body(body)).len() <= 8843,
{
    if let Some(b) = body {
        reveal_strlit("StackTrace");
        reveal_strlit("Capabilities");
        let members = seq![(body_name(b), body_value(b))];
        assert(body_json(b) == JsonModel::Object(members));
        assert(members.len() == 1);
        assert(members[0] == (body_name(b), body_value(b)));
        if let ResponseBody::Capabilities(c) = b {
            lemma_capabilities_size(c);
            assert(body_name(b).len() == 12);
            assert(json_text(body_value(b)).len() <= 8549);
        } else {
            let frames = b->StackTrace_0;
            let items = frames_json(frames@)->Array_0;
            assert(items.len() == 0);
            assert(json_text(JsonModel::Array(items)).len() == 2);
            assert(body_name(b).len() == 10);
            assert(json_text(body_value(b)).len() <= 8549);
        }
        assert forall|i: int| 0 <= i < members.len() implies (#[trigger] members[i]).0.len() <= 12
            && json_text(members[i].1).len() <= 8549 by {
            assert(members[i] == members[0]);
        }
        lemma_object_size(members, 12, 8549);
    } else {
        assert(optional_body(body) == JsonModel::Null);
    }
}

/// The text of a short response fits a frame.
pub proof fn lemma_short_response_fits(response: ProtocolMessage)
    requires
        is_short_response(response),
    ensures
        message_text(response).len() <= 110666,
        message_text(response).len() <= u32::MAX,
{
    reveal_strlit("seq");
    reveal_strlit("typ");
    reveal_strlit("content");
    reveal_strlit("Request");
    reveal_strlit("Response");
    reveal_strlit("Event");
    reveal_strlit("request_seq");
    reveal_strlit("success");
    reveal_strlit("message");
    reveal_strlit("body");
    let request_seq = response.content->request_seq;
    let message = response.content->message;
    let body = response.content->body;
    lemma_body_size(body);
    lemma_number_size(request_seq);
    lemma_number_size(response.seq);
    if let Some(text) = message {
        lemma_quoted_size(text@);
    }
    let fields = content_value(response.content)->Object_0;
    assert(fields.len() == 4);
    assert(json_text(fields[0].1).len() <= 20);
    assert(json_text(fields[1].1).len() <= 5);
    assert(json_text(fields[2].1).len() <= 2 + 24 * FAILURE_TEXT_LIMIT);
    assert(json_text(fields[3].1).len() <= 8843);
    lemma_object_size(fields, 11, 8843);
    let content = content_json(response.content)->Object_0;
    assert(content.len() == 1);
    assert(content[0].0.len() <= 11);
    assert(json_text(content[0].1).len() <= 36446);
    lemma_object_size(content, 11, 36446);
    let whole = message_json(response)->Object_0;
    assert(whole.len() == 3);
    lemma_quoted_size(kind_json(response.typ)->Text_0);
    assert(json_text(whole[0].1).len() <= 20);
    assert(json_text(whole[1].1).len() <= 2 + 24 * 8);
    assert(json_text(whole[2].1).len() <= 36716);
    lemma_object_size(whole, 7, 36716);
}

} // verus!
