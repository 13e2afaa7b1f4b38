//! Templates of log points: text with expressions between single braces.
use crate::seqs::{first_index, lemma_first_index, lemma_first_index_is};
use crate::text::{chars_of, push_all, string_from_chars};
use vstd::prelude::*;

verus! {

/// Why a template could not be expanded.
#[derive(Debug, Clone, Copy, PartialEq, Eq, Structural)]
pub enum TemplateError {
    /// An opening brace has no closing brace after it.
    UnterminatedPlaceholder,
}

/// Whether a character opens a placeholder.
pub open spec fn opening() -> spec_fn(char) -> bool {
    |c: char| c == '{'
}

/// Whether a character closes a placeholder.
pub open spec fn closing() -> spec_fn(char) -> bool {
    |c: char| c == '}'
}

/// Index of the first opening brace, or the length.
pub open spec fn open_at(t: Seq<char>) -> int {
    first_index(t, opening())
}

/// Index of the first closing brace at or after index `from`, or the
/// length.
pub open spec fn close_at(t: Seq<char>, from: int) -> int {
    from + first_index(t.skip(from), closing())
}

/// Whether every placeholder of a template is closed: after each opening
/// brace that starts a placeholder there is a closing brace.
pub open spec fn terminated(t: Seq<char>) -> bool
    decreases t.len(),
{
    let o = open_at(t);
    if !(0 <= o < t.len()) {
        true
    } else {
        let c = close_at(t, o);
        if !(o <= c < t.len()) {
            false
        } else {
            terminated(t.skip(c + 1))
        }
    }
}

/// The expressions of the placeholders of a template, in their order:
/// the text between an opening brace and the first closing brace after it.
pub open spec fn placeholders(t: Seq<char>) -> Seq<Seq<char>>
    decreases t.len(),
{
    let o = open_at(t);
    if !(0 <= o < t.len()) {
        Seq::<Seq<char>>::empty()
    } else {
        let c = close_at(t, o);
        if !(o <= c < t.len()) {
            Seq::<Seq<char>>::empty()
        } else {
            seq![t.subrange(o + 1, c)] + placeholders(t.skip(c + 1))
        }
    }
}

/// A template with each placeholder replaced by the value given for it,
/// the values taken in their order; the text outside placeholders stays.
pub open spec fn expanded(t: Seq<char>, values: Seq<Seq<char>>) -> Seq<char>
    decreases t.len(),
{
    let o = open_at(t);
    if !(0 <= o < t.len()) {
        t
    } else {
        let c = close_at(t, o);
        if !(o <= c < t.len()) || values.len() == 0 {
            t
        } else {
            t.take(o) + values[0] + expanded(t.skip(c + 1), values.drop_first())
        }
    }
}

/// Index of the first character from `from` on that is `wanted`, or the
/// length.
fn find_from(text: &Vec<char>, from: usize, wanted: char) -> (i: usize)
    requires
        from <= text@.len(),
    ensures
        from <= i <= text@.len(),
        i - from == first_index(text@.skip(from as int), |c: char| c == wanted),
{
    let mut i: usize = from;
    let ghost rest = text@.skip(from as int);
    while i < text.len() && text[i] != wanted
        invariant
            from <= i <= text@.len(),
            rest == text@.skip(from as int),
            forall|j: int| 0 <= j < i - from ==> !(|c: char| c == wanted)(#[trigger] rest[j]),
        decreases text@.len() - i,
    {
        i += 1;
    }
    proof {
        lemma_first_index_is(rest, |c: char| c == wanted, i - from);
    }
    i
}

/// The expressions of the placeholders of a template, or the error of a
/// placeholder that is not closed.
pub fn placeholder_expressions(template: &str) -> (r: Result<Vec<String>, TemplateError>)
    ensures
        match r {
            Ok(expressions) => terminated(template@) && expressions@.len() == placeholders(
                template@,
            ).len() && forall|i: int|
                0 <= i < expressions@.len() ==> (#[trigger] expressions@[i])@ == placeholders(
                    template@,
                )[i],
            Err(e) => !terminated(template@) && e == TemplateError::UnterminatedPlaceholder,
        },
{
    let text = chars_of(template);
    let mut expressions: Vec<String> = Vec::new();
    let mut current: usize = 0;
    assert(text@.skip(0) == text@);
    loop
        invariant
            current <= text@.len(),
            text@ == template@,
            terminated(text@) == terminated(text@.skip(current as int)),
            placeholders(text@).len() == expressions@.len() + placeholders(
                text@.skip(current as int),
            ).len(),
            forall|i: int|
                0 <= i < expressions@.len() ==> (#[trigger] expressions@[i])@ == placeholders(
                    text@,
                )[i],
            forall|i: int|
                0 <= i < placeholders(text@.skip(current as int)).len() ==> placeholders(
                    text@,
                )[expressions@.len() + i] == #[trigger] placeholders(text@.skip(current as int))[i],
        decreases text@.len() - current,
    {
        let ghost rest = text@.skip(current as int);
        let start = find_from(&text, current, '{');
        assert((|c: char| c == '{') == opening());
        if start >= text.len() {
            return Ok(expressions);
        }
        assert(rest.skip(start - current) == text@.skip(start as int));
        let end = find_from(&text, start, '}');
        assert((|c: char| c == '}') == closing());
        if end >= text.len() {
            return Err(TemplateError::UnterminatedPlaceholder);
        }
        let mut expression: Vec<char> = Vec::new();
        let mut k: usize = start + 1;
        proof {
            lemma_first_index(text@.skip(start as int), closing());
            lemma_first_index(rest, opening());
            assert(rest[start - current] == text@[start as int]);
            assert(text@.skip(start as int)[0] == text@[start as int]);
            assert(end > start);
        }
        while k < end
            invariant
                start + 1 <= k <= end < text@.len(),
                expression@ == text@.subrange(start + 1, k as int),
            decreases end - k,
        {
            expression.push(text[k]);
            assert(text@.subrange(start + 1, k as int + 1) == text@.subrange(
                start + 1,
                k as int,
            ).push(text@[k as int]));
            k += 1;
        }
        proof {
            let o = start - current;
            let c = end - current;
            assert(rest.subrange(o + 1, c) == text@.subrange(start + 1, end as int));
            assert(rest.skip(c + 1) == text@.skip(end + 1));
            let tail = placeholders(text@.skip(end + 1));
            assert(placeholders(rest) == seq![rest.subrange(o + 1, c)] + tail);
            assert(placeholders(rest)[0] == rest.subrange(o + 1, c));
            assert forall|i: int| 0 <= i < tail.len() implies placeholders(
                text@,
            )[expressions@.len() + 1 + i] == #[trigger] tail[i] by {
                assert(placeholders(rest)[i + 1] == tail[i]);
            }
        }
        expressions.push(string_from_chars(&expression));
        current = end + 1;
    }
}

/// Expands a template with the values given for its placeholders, in
/// their order.  A placeholder that is not closed is an error.  Where
/// fewer values are given than the template has placeholders, the text
/// from the first placeholder without a value on stays as it is.
pub fn expand_template(template: &str, values: &Vec<String>) -> (r: Result<String, TemplateError>)
    ensures
        match r {
            Ok(line) => terminated(template@) && line@ == expanded(
                template@,
                Seq::new(values@.len(), |i: int| values@[i]@),
            ),
            Err(e) => !terminated(template@) && e == TemplateError::UnterminatedPlaceholder,
        },
{
    let text = chars_of(template);
    let ghost all = Seq::new(values@.len(), |i: int| values@[i]@);
    let mut out: Vec<char> = Vec::new();
    let mut current: usize = 0;
    let mut used: usize = 0;
    assert(text@.skip(0) == text@);
    assert(all.skip(0) == all);
    assert(Seq::<char>::empty() + expanded(text@, all) == expanded(text@, all));
    loop
        invariant
            current <= text@.len(),
            used <= values@.len(),
            text@ == template@,
            all == Seq::new(values@.len(), |i: int| values@[i]@),
            terminated(text@) == terminated(text@.skip(current as int)),
            expanded(text@, all) == out@ + expanded(
                text@.skip(current as int),
                all.skip(used as int),
            ),
        decreases text@.len() - current,
    {
        let ghost rest = text@.skip(current as int);
        let ghost left = all.skip(used as int);
        let start = find_from(&text, current, '{');
        assert((|c: char| c == '{') == opening());
        if start >= text.len() {
            let tail = vstd::slice::slice_subrange(text.as_slice(), current, text.len());
            let ghost before = out@;
            let tail_chars = slice_to_chars(tail);
            push_all(&mut out, &tail_chars);
            assert(tail@ == rest);
            return Ok(string_from_chars(&out));
        }
        assert(rest.skip(start - current) == text@.skip(start as int));
        let end = find_from(&text, start, '}');
        assert((|c: char| c == '}') == closing());
        if end >= text.len() {
            return Err(TemplateError::UnterminatedPlaceholder);
        }
        proof {
            assert(rest.skip(end - current + 1) == text@.skip(end + 1));
        }
        if used >= values.len() {
            // Nothing is left to put in: the rest stays as it is, but an
            // open placeholder further on is still an error.
            let closed = rest_terminated(&text, end + 1);
            if !closed {
                return Err(TemplateError::UnterminatedPlaceholder);
            }
            let tail = vstd::slice::slice_subrange(text.as_slice(), current, text.len());
            let tail_chars = slice_to_chars(tail);
            push_all(&mut out, &tail_chars);
            assert(tail@ == rest);
            return Ok(string_from_chars(&out));
        }
        let ghost before = out@;
        let literal = vstd::slice::slice_subrange(text.as_slice(), current, start);
        let literal_chars = slice_to_chars(literal);
        push_all(&mut out, &literal_chars);
        let value = chars_of(values[used].as_str());
        push_all(&mut out, &value);
        proof {
            assert(literal@ == rest.take(start - current));
            assert(left[0] == values@[used as int]@);
            assert(left.drop_first() == all.skip(used + 1));
            assert(before + (rest.take(start - current) + left[0] + expanded(
                text@.skip(end + 1),
                left.drop_first(),
            )) == (before + rest.take(start - current) + left[0]) + expanded(
                text@.skip(end + 1),
                left.drop_first(),
            ));
        }
        used += 1;
        current = end + 1;
    }
}

/// The characters of a slice.
fn slice_to_chars(s: &[char]) -> (v: Vec<char>)
    ensures
        v@ == s@,
{
    let mut v: Vec<char> = Vec::new();
    let mut i: usize = 0;
    while i < s.len()
        invariant
            i <= s@.len(),
            v@ == s@.take(i as int),
        decreases s@.len() - i,
    {
        v.push(s[i]);
        assert(s@.take(i as int + 1) == s@.take(i as int).push(s@[i as int]));
        i += 1;
    }
    assert(s@.take(s@.len() as int) == s@);
    v
}

/// Whether every placeholder from index `from` on is closed.
fn rest_terminated(text: &Vec<char>, from: usize) -> (r: bool)
    requires
        from <= text@.len(),
    ensures
        r == terminated(text@.skip(from as int)),
{
    let mut current: usize = from;
    loop
        invariant
            from <= current <= text@.len(),
            terminated(text@.skip(from as int)) == terminated(text@.skip(current as int)),
        decreases text@.len() - current,
    {
        let ghost rest = text@.skip(current as int);
        let start = find_from(text, current, '{');
        assert((|c: char| c == '{') == opening());
        if start >= text.len() {
            return true;
        }
        assert(rest.skip(start - current) == text@.skip(start as int));
        let end = find_from(text, start, '}');
        assert((|c: char| c == '}') == closing());
        if end >= text.len() {
            return false;
        }
        proof {
            assert(rest.skip(end - current + 1) == text@.skip(end + 1));
        }
        current = end + 1;
    }
}

} // verus!
