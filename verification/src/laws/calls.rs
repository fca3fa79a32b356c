//! The statements that procedure calls come to.
use crate::laws::phrases::same_but_for_case;
use crate::laws::wire::lemma_decimal_round_trip;
use crate::semantic::handle::{call_text, call_texts, calls_text, filled_in, literals};
use crate::semantic::words::{first_quoted, quoted_from};
use crate::strings::{integer_of, joined, joined_first, replaced, replaced_from, stands_at};
use crate::tds::data::{quoted, ValueView};
use crate::tds::rpc::{RpcBatchView, RpcParameterView};
use crate::text::{ascii_lower, dec, hex_text};
use vstd::prelude::*;
use vstd::utf8::{encode_utf8, is_ascii_chars, is_ascii_chars_encode_utf8};

verus! {

// ---------------------------------------------------------------------------
// Replacing

/// Whether a text holds another one at one place only.
pub open spec fn only_at(text: Seq<char>, needle: Seq<char>, at: int) -> bool {
    stands_at(text, needle, at) && forall|i: int| i != at ==> !stands_at(text, needle, i)
}

proof fn lemma_kept(s: Seq<char>, pattern: Seq<char>, with: Seq<char>, i: int, to: int)
    requires
        0 <= i <= to <= s.len(),
        forall|j: int| i <= j < to ==> !stands_at(s, pattern, j),
    ensures
        replaced_from(s, pattern, with, i) == s.subrange(i, to) + replaced_from(
            s,
            pattern,
            with,
            to,
        ),
    decreases to - i,
{
    if i < to {
        assert(!stands_at(s, pattern, i));
        lemma_kept(s, pattern, with, i + 1, to);
        assert(seq![s[i]] + (s.subrange(i + 1, to) + replaced_from(s, pattern, with, to))
            =~= s.subrange(i, to) + replaced_from(s, pattern, with, to));
    } else {
        assert(s.subrange(i, to) + replaced_from(s, pattern, with, to) =~= replaced_from(
            s,
            pattern,
            with,
            to,
        ));
    }
}

/// What stands at one place only is replaced there, and the rest stays.
pub proof fn lemma_replaced_once(
    before: Seq<char>,
    pattern: Seq<char>,
    after: Seq<char>,
    with: Seq<char>,
)
    requires
        pattern.len() > 0,
        only_at(before + pattern + after, pattern, before.len() as int),
    ensures
        replaced(before + pattern + after, pattern, with) == before + with + after,
{
    let s = before + pattern + after;
    let n = before.len() as int;
    let m = n + pattern.len();
    lemma_kept(s, pattern, with, 0, n);
    lemma_kept(s, pattern, with, m, s.len() as int);
    assert(s.subrange(0, n) =~= before);
    assert(s.subrange(n, m) =~= pattern);
    assert(s.subrange(m, s.len() as int) =~= after);
    let rest = replaced_from(s, pattern, with, s.len() as int);
    assert(rest =~= seq![]);
    assert(after + rest =~= after);
    assert(replaced_from(s, pattern, with, n) == with + replaced_from(s, pattern, with, m));
    assert(before + (with + after) =~= before + with + after);
}

// ---------------------------------------------------------------------------
// Statements with parameters

/// Whether a call passes a statement along.
pub open spec fn passes_statement(batch: RpcBatchView) -> bool {
    &&& same_but_for_case(batch.procedure, "sp_executesql"@)
    &&& batch.parameters.len() >= 2
    &&& batch.parameters[0].value is Text
}

/// A call with one parameter more.
pub open spec fn with_parameter(batch: RpcBatchView, parameter: RpcParameterView) -> RpcBatchView {
    RpcBatchView { parameters: batch.parameters.push(parameter), ..batch }
}

proof fn lemma_filled_more(
    text: Seq<char>,
    parameters: Seq<RpcParameterView>,
    last: RpcParameterView,
    i: int,
)
    requires
        0 <= i <= parameters.len(),
    ensures
        filled_in(text, parameters.push(last), i) == (if last.name.len() == 0 {
            filled_in(text, parameters, i)
        } else {
            replaced(filled_in(text, parameters, i), last.name, last.value.literal())
        }),
    decreases parameters.len() - i,
{
    let more = parameters.push(last);
    if i < parameters.len() {
        assert(more[i] == parameters[i]);
        if parameters[i].name.len() == 0 {
            lemma_filled_more(text, parameters, last, i + 1);
        } else {
            lemma_filled_more(
                replaced(text, parameters[i].name, parameters[i].value.literal()),
                parameters,
                last,
                i + 1,
            );
        }
    } else {
        assert(more[i] == last);
        reveal_with_fuel(filled_in, 2);
    }
}

/// A statement that is passed along without values for its parameters stays as it is. With
/// one value more, that value stands where the name of its parameter stood, and nothing else
/// changes. A parameter without a name changes nothing.
pub proof fn lemma_values_are_filled_in(
    batch: RpcBatchView,
    parameter: RpcParameterView,
    before: Seq<char>,
    after: Seq<char>,
)
    requires
        passes_statement(batch),
    ensures
        batch.parameters.len() == 2 ==> ValueView::Text(call_text(batch))
            == batch.parameters[0].value,
        parameter.name.len() == 0 ==> call_text(with_parameter(batch, parameter)) == call_text(
            batch,
        ),
        parameter.name.len() > 0 && call_text(batch) == before + parameter.name + after && only_at(
            call_text(batch),
            parameter.name,
            before.len() as int,
        ) ==> call_text(with_parameter(batch, parameter)) == before + parameter.value.literal()
            + after,
{
    let p = "sp_executesql"@;
    assert(ascii_lower(batch.procedure) == ascii_lower(p)) by {
        assert forall|i: int| 0 <= i < p.len() implies ascii_lower(batch.procedure)[i]
            == ascii_lower(p)[i] by {
            assert(batch.procedure[i] == batch.procedure[i]);
            lemma_same_lower(batch.procedure[i], p[i]);
        }
        assert(ascii_lower(batch.procedure) =~= ascii_lower(p));
    }
    let more = with_parameter(batch, parameter);
    assert(more.parameters[0] == batch.parameters[0]);
    if let ValueView::Text(sql) = batch.parameters[0].value {
        lemma_filled_more(sql, batch.parameters, parameter, 2);
        assert(call_text(batch) == filled_in(sql, batch.parameters, 2));
        assert(call_text(more) == filled_in(sql, more.parameters, 2));
        if parameter.name.len() > 0 && call_text(batch) == before + parameter.name + after
            && only_at(call_text(batch), parameter.name, before.len() as int) {
            lemma_replaced_once(before, parameter.name, after, parameter.value.literal());
        }
    }
}

proof fn lemma_same_lower(a: char, b: char)
    requires
        a == b || ('a' <= a && a <= 'z' && a as u32 == b as u32 + 32) || ('a' <= b && b <= 'z'
            && b as u32 == a as u32 + 32),
    ensures
        crate::text::lower_char(a) == crate::text::lower_char(b),
{
}

/// Calls of `sp_executesql` that differ in nothing but the value of one parameter, which is
/// named once, come to the same statement only where the values are written alike.
pub proof fn lemma_values_matter(
    batch: RpcBatchView,
    one: RpcParameterView,
    other: RpcParameterView,
    before: Seq<char>,
    after: Seq<char>,
)
    requires
        passes_statement(batch),
        one.name == other.name,
        one.name.len() > 0,
        call_text(batch) == before + one.name + after,
        only_at(call_text(batch), one.name, before.len() as int),
    ensures
        call_text(with_parameter(batch, one)) == call_text(with_parameter(batch, other)) <==> one.value.literal()
            == other.value.literal(),
{
    lemma_values_are_filled_in(batch, one, before, after);
    lemma_values_are_filled_in(batch, other, before, after);
    let x = one.value.literal();
    let y = other.value.literal();
    let s = before + x + after;
    let t = before + y + after;
    if s == t {
        assert(s.len() == before.len() + x.len() + after.len());
        assert(t.len() == before.len() + y.len() + after.len());
        assert(x =~= s.subrange(before.len() as int, (before.len() + x.len()) as int));
        assert(y =~= t.subrange(before.len() as int, (before.len() + y.len()) as int));
    }
}

// ---------------------------------------------------------------------------
// Other calls

/// A call that passes no statement along comes to the call itself: the procedure, and behind
/// it the values of its parameters in order, with commas between them.
pub proof fn lemma_calls_are_spelled(batch: RpcBatchView, parameter: RpcParameterView)
    requires
        !same_but_for_case(batch.procedure, "sp_executesql"@),
    ensures
        batch.parameters.len() == 0 ==> call_text(batch) == "EXEC "@ + batch.procedure,
        parameter.value.literal().len() > 0 && batch.parameters.len() == 0 ==> call_text(
            with_parameter(batch, parameter),
        ) == "EXEC "@ + batch.procedure + " "@ + parameter.value.literal(),
        batch.parameters.len() > 0 && batch.parameters[0].value.literal().len() > 0 ==> call_text(
            with_parameter(batch, parameter),
        ) == call_text(batch) + ", "@ + parameter.value.literal(),
{
    let p = "sp_executesql"@;
    assert(ascii_lower(batch.procedure) != ascii_lower(p)) by {
        if ascii_lower(batch.procedure) == ascii_lower(p) {
            assert(batch.procedure.len() == ascii_lower(batch.procedure).len());
            assert(p.len() == ascii_lower(p).len());
            assert forall|i: int| 0 <= i < p.len() implies (#[trigger] batch.procedure[i] == p[i]
                || ('a' <= batch.procedure[i] && batch.procedure[i] <= 'z' && batch.procedure[i]
                as u32 == p[i] as u32 + 32) || ('a' <= p[i] && p[i] <= 'z' && p[i] as u32
                == batch.procedure[i] as u32 + 32)) by {
                assert(ascii_lower(batch.procedure)[i] == ascii_lower(p)[i]);
                lemma_lower_same(batch.procedure[i], p[i]);
            }
        }
    }
    let more = with_parameter(batch, parameter);
    let texts = literals(batch.parameters);
    let longer = literals(more.parameters);
    assert(longer =~= texts.push(parameter.value.literal()));
    let n = batch.parameters.len();
    if n == 0 {
        assert(joined(texts, ", "@).len() == 0);
        reveal_with_fuel(joined_first, 2);
        assert(joined(longer, ", "@) == parameter.value.literal());
    } else {
        lemma_same_joined(longer, texts, ", "@, n);
        assert(joined(longer, ", "@) == joined(texts, ", "@) + ", "@ + parameter.value.literal());
        if texts[0].len() > 0 {
            lemma_joined_longer(texts, ", "@, n);
        }
        let call = "EXEC "@ + batch.procedure + " "@;
        reveal_strlit(", ");
        assert(call + (joined(texts, ", "@) + ", "@ + parameter.value.literal()) =~= call + joined(
            texts,
            ", "@,
        ) + ", "@ + parameter.value.literal());
    }
}

proof fn lemma_lower_same(a: char, b: char)
    requires
        crate::text::lower_char(a) == crate::text::lower_char(b),
    ensures
        a == b || ('a' <= a && a <= 'z' && a as u32 == b as u32 + 32) || ('a' <= b && b <= 'z'
            && b as u32 == a as u32 + 32),
{
}

proof fn lemma_same_joined(a: Seq<Seq<char>>, b: Seq<Seq<char>>, separator: Seq<char>, n: nat)
    requires
        n <= a.len(),
        n <= b.len(),
        forall|i: int| 0 <= i < n ==> a[i] == b[i],
    ensures
        joined_first(a, separator, n) == joined_first(b, separator, n),
    decreases n,
{
    if n > 1 {
        lemma_same_joined(a, b, separator, (n - 1) as nat);
    }
}

proof fn lemma_joined_longer(texts: Seq<Seq<char>>, separator: Seq<char>, n: nat)
    requires
        0 < n <= texts.len(),
        texts[0].len() > 0,
    ensures
        joined_first(texts, separator, n).len() > 0,
    decreases n,
{
    if n > 1 {
        lemma_joined_longer(texts, separator, (n - 1) as nat);
    }
}

/// Calls come to their statements one behind the other. One that is not to be executed comes
/// to nothing.
pub proof fn lemma_calls_follow_each_other(batches: Seq<RpcBatchView>, last: RpcBatchView)
    ensures
        !last.no_execute ==> calls_text(seq![last]) == call_text(last),
        last.no_execute ==> calls_text(batches.push(last)) == calls_text(batches),
        !last.no_execute && batches.len() > 0 && !batches[0].no_execute ==> calls_text(
            batches.push(last),
        ) == calls_text(batches) + "; "@ + call_text(last),
{
    let one = seq![last];
    assert(one[0] == last);
    reveal_with_fuel(call_texts, 2);
    assert(seq![].push(call_text(last))[0] == call_text(last));
    let n = batches.len();
    let more = batches.push(last);
    lemma_call_texts_same(batches, more, n);
    assert(more[n as int] == last);
    if !last.no_execute && batches.len() > 0 && !batches[0].no_execute {
        lemma_call_texts_grow(batches, n);
        let texts = call_texts(batches, n);
        let longer = texts.push(call_text(last));
        assert(call_texts(more, n + 1) == longer);
        lemma_same_joined(longer, texts, "; "@, texts.len());
    }
}

proof fn lemma_call_texts_same(a: Seq<RpcBatchView>, b: Seq<RpcBatchView>, n: nat)
    requires
        n <= a.len() <= b.len(),
        forall|i: int| 0 <= i < n ==> a[i] == b[i],
    ensures
        call_texts(a, n) == call_texts(b, n),
    decreases n,
{
    if n > 0 {
        lemma_call_texts_same(a, b, (n - 1) as nat);
    }
}

proof fn lemma_call_texts_grow(batches: Seq<RpcBatchView>, n: nat)
    requires
        0 < n <= batches.len(),
        !batches[0].no_execute,
    ensures
        call_texts(batches, n).len() > 0,
    decreases n,
{
    if n > 1 {
        lemma_call_texts_grow(batches, (n - 1) as nat);
    } else {
        reveal_with_fuel(call_texts, 2);
    }
}

// ---------------------------------------------------------------------------
// Values

proof fn lemma_byte_char(c: char)
    requires
        c <= '\u{7f}',
    ensures
        (c as u8) as char == c,
        (c as u8 == 0x27) <==> c == '\'',
{
}

/// Reading quoted text from the start of a doubled one.
proof fn lemma_unquoted_again(head: Seq<char>, text: Seq<char>, done: Seq<char>)
    requires
        is_ascii_chars(head),
        is_ascii_chars(text),
    ensures
        quoted_from(
            encode_utf8(head + quoted_first(text) + seq!['\'']),
            head.len() as int,
            done,
        ) == Some(done + text),
    decreases text.len(),
{
    let s = head + quoted_first(text) + seq!['\''];
    lemma_first_is_ascii(text);
    let q = quoted_first(text);
    assert(is_ascii_chars(s)) by {
        assert forall|i: int| 0 <= i < s.len() implies '\0' <= #[trigger] s[i] <= '\u{7f}' by {
            if i < head.len() {
                assert(s[i] == head[i]);
            } else if i < head.len() + q.len() {
                assert(s[i] == q[i - head.len()]);
            }
        }
    }
    is_ascii_chars_encode_utf8(s);
    let b = encode_utf8(s);
    let n = head.len() as int;
    lemma_byte_char('\'');
    if text.len() == 0 {
        assert(s[n] == '\'');
        assert(b[n] == s[n] as u8);
        assert(done + text =~= done);
    } else {
        let c = text[0];
        let rest = text.drop_first();
        assert(is_ascii_chars(rest)) by {
            assert forall|i: int| 0 <= i < rest.len() implies '\0' <= #[trigger] rest[i]
                <= '\u{7f}' by {
                assert(rest[i] == text[i + 1]);
            }
        }
        lemma_byte_char(c);
        let step = if c == '\'' {
            seq!['\'', '\'']
        } else {
            seq![c]
        };
        assert(s[n] == c);
        assert(b[n] == s[n] as u8);
        let next = head + step;
        assert(is_ascii_chars(next)) by {
            assert forall|i: int| 0 <= i < next.len() implies '\0' <= #[trigger] next[i]
                <= '\u{7f}' by {
                if i < head.len() {
                    assert(next[i] == head[i]);
                }
            }
        }
        assert(s =~= next + quoted_first(rest) + seq!['\'']);
        lemma_unquoted_again(next, rest, done.push(c));
        assert(done.push(c) + rest =~= done + text);
        if c == '\'' {
            assert(s[n + 1] == '\'');
            assert(b[n + 1] == s[n + 1] as u8);
        }
    }
}

/// A text with every single quote doubled, from its start on.
spec fn quoted_first(text: Seq<char>) -> Seq<char>
    decreases text.len(),
{
    if text.len() == 0 {
        seq![]
    } else if text[0] == '\'' {
        seq!['\'', '\''] + quoted_first(text.drop_first())
    } else {
        seq![text[0]] + quoted_first(text.drop_first())
    }
}

proof fn lemma_first_is_ascii(text: Seq<char>)
    requires
        is_ascii_chars(text),
    ensures
        is_ascii_chars(quoted_first(text)),
    decreases text.len(),
{
    if text.len() > 0 {
        let rest = text.drop_first();
        assert(is_ascii_chars(rest)) by {
            assert forall|i: int| 0 <= i < rest.len() implies '\0' <= #[trigger] rest[i]
                <= '\u{7f}' by {
                assert(rest[i] == text[i + 1]);
            }
        }
        lemma_first_is_ascii(rest);
        let q = quoted_first(text);
        let r = quoted_first(rest);
        assert forall|i: int| 0 <= i < q.len() implies '\0' <= #[trigger] q[i] <= '\u{7f}' by {
            if text[0] == '\'' {
                if i >= 2 {
                    assert(q[i] == r[i - 2]);
                }
            } else if i >= 1 {
                assert(q[i] == r[i - 1]);
            }
        }
    }
}

proof fn lemma_quoted_either_way(text: Seq<char>)
    ensures
        quoted(text) == quoted_first(text),
    decreases text.len(),
{
    if text.len() > 0 {
        let t = text.drop_last();
        lemma_quoted_either_way(t);
        lemma_first_push(t, text.last());
        assert(t.push(text.last()) =~= text);
        if text.last() != '\'' {
            assert(quoted(t).push(text.last()) =~= quoted(t) + seq![text.last()]);
        }
    }
}

proof fn lemma_first_push(text: Seq<char>, c: char)
    ensures
        quoted_first(text.push(c)) == quoted_first(text) + (if c == '\'' {
            seq!['\'', '\'']
        } else {
            seq![c]
        }),
    decreases text.len(),
{
    let more = text.push(c);
    let end = if c == '\'' {
        seq!['\'', '\'']
    } else {
        seq![c]
    };
    if text.len() == 0 {
        assert(more.drop_first() =~= seq![]);
        assert(more[0] == c);
        assert(quoted_first(more.drop_first()) =~= seq![]);
        assert(quoted_first(more) =~= quoted_first(text) + end);
    } else {
        assert(more[0] == text[0]);
        assert(more.drop_first() =~= text.drop_first().push(c));
        lemma_first_push(text.drop_first(), c);
        assert(quoted_first(more) =~= quoted_first(text) + end);
    }
}

/// What a value is in a statement can be read back from it: a text is quoted, with its own
/// quotes doubled, a number is decimal, and nothing is `NULL`.
pub proof fn lemma_literals_are_read_back(text: Seq<char>, n: i64, bytes: Seq<u8>)
    ensures
        is_ascii_chars(text) ==> first_quoted(encode_utf8(ValueView::Text(text).literal())) == Some(
            text,
        ),
        n >= 0 ==> integer_of(ValueView::Integer(n).literal()) == Some(n),
        n < 0 ==> ValueView::Integer(n).literal().len() > 0 && ValueView::Integer(n).literal()[0]
            == '-' && ValueView::Integer(n).literal().drop_first() == dec((-n) as nat),
        ValueView::Null.literal() == "NULL"@,
        ValueView::Boolean(true).literal() == "1"@,
        ValueView::Boolean(false).literal() == "0"@,
        bytes.len() <= 256 ==> ValueView::Binary(bytes).literal() == "0x"@ + hex_text(bytes),
{
    if n >= 0 {
        lemma_decimal_round_trip(n as nat);
    } else {
        assert((seq!['-'] + dec((-n) as nat)).drop_first() =~= dec((-n) as nat));
    }
    if is_ascii_chars(text) {
        reveal_strlit("N'");
        reveal_strlit("'");
        lemma_quoted_either_way(text);
        let literal = ValueView::Text(text).literal();
        let head = seq!['N', '\''];
        assert(literal =~= head + quoted_first(text) + seq!['\'']);
        lemma_unquoted_again(head, text, seq![]);
        assert(seq![] + text =~= text);
        lemma_first_is_ascii(text);
        let q = quoted_first(text);
        assert(is_ascii_chars(literal)) by {
            assert forall|i: int| 0 <= i < literal.len() implies '\0' <= #[trigger] literal[i]
                <= '\u{7f}' by {
                if 2 <= i < 2 + q.len() {
                    assert(literal[i] == q[i - 2]);
                }
            }
        }
        is_ascii_chars_encode_utf8(literal);
        let b = encode_utf8(literal);
        lemma_byte_char('N');
        lemma_byte_char('\'');
        assert(b[0] == literal[0] as u8 && b[1] == literal[1] as u8);
        let quote = seq![0x27u8];
        assert(!crate::bytes::occurs_at(b, quote, 0)) by {
            assert(b.subrange(0, 1)[0] == b[0]);
        }
        assert(b.subrange(1, 2) =~= quote);
        assert(crate::bytes::occurs_at(b, quote, 1));
        reveal_with_fuel(crate::bytes::find_from, 3);
    }
}

} // verus!
