//! What holds of numbers, of the order of strings, and of lines.
use vstd::prelude::*;

use crate::json;
use crate::json::Json;
use crate::lines;
use crate::text;
use crate::token;
use crate::transcript;
use crate::transcript::TargetId;

verus! {

/// The number that a row of decimal digits stands for.
pub open spec fn value(digits: Seq<char>) -> int
    decreases digits.len(),
{
    if digits.len() == 0 {
        0
    } else {
        value(digits.drop_last()) * 10 + (digits.last() as int - '0' as int)
    }
}

/// A number in decimal is a row of digits that stands for it, without a zero in front.
pub proof fn law_decimal_stands_for_the_number(n: nat)
    ensures
        value(text::decimal(n)) == n,
        text::decimal(n).len() > 0,
        forall|i: int| 0 <= i < text::decimal(n).len() ==> '0' <= #[trigger] text::decimal(n)[i]
            <= '9',
        n > 0 ==> text::decimal(n)[0] != '0',
    decreases n,
{
    if n >= 10 {
        law_decimal_stands_for_the_number(n / 10);
        let digits = text::decimal(n);
        assert(digits.drop_last() =~= text::decimal(n / 10));
    } else {
        let digits = text::decimal(n);
        assert(digits.drop_last() =~= Seq::<char>::empty());
        reveal_with_fuel(value, 2);
    }
}

/// A negative number is written with a minus sign before its size, any other without a sign.
pub proof fn law_sign_of_numbers(n: int)
    ensures
        n >= 0 ==> value(text::integer(n)) == n && text::integer(n)[0] != '-',
        n < 0 ==> text::integer(n)[0] == '-' && value(text::integer(n).drop_first()) == -n,
{
    reveal_strlit("-");
    if n >= 0 {
        law_decimal_stands_for_the_number(n as nat);
    } else {
        law_decimal_stands_for_the_number((-n) as nat);
        assert(text::integer(n).drop_first() =~= text::decimal((-n) as nat));
    }
}

proof fn lemma_utf8_add(a: Seq<char>, b: Seq<char>)
    ensures
        vstd::utf8::encode_utf8(a + b) == vstd::utf8::encode_utf8(a) + vstd::utf8::encode_utf8(b),
    decreases a.len(),
{
    if a.len() == 0 {
        assert(a + b =~= b);
        assert(vstd::utf8::encode_utf8(a) + vstd::utf8::encode_utf8(b) =~= vstd::utf8::encode_utf8(
            b,
        ));
    } else {
        lemma_utf8_add(a.drop_first(), b);
        assert((a + b).drop_first() =~= a.drop_first() + b);
        assert(vstd::utf8::encode_utf8(a + b) =~= vstd::utf8::encode_utf8(a)
            + vstd::utf8::encode_utf8(b));
    }
}

proof fn lemma_utf8_first(s: Seq<char>)
    requires
        s.len() > 0,
    ensures
        vstd::utf8::encode_utf8(s).len() > 0,
{
}

/// A string comes after every string that it begins with.
pub proof fn law_shorter_strings_come_first(a: Seq<char>, rest: Seq<char>)
    requires
        rest.len() > 0,
    ensures
        text::before(a, a + rest),
        !text::before(a + rest, a),
{
    let (x, y) = (vstd::utf8::encode_utf8(a), vstd::utf8::encode_utf8(rest));
    lemma_utf8_add(a, rest);
    lemma_utf8_first(rest);
    assert(text::parts_at(x, x + y, x.len() as int));
    if text::before(a + rest, a) {
        text::lemma_before_transitive(a, a + rest, a);
        text::lemma_before_irreflexive(a);
    }
}

/// How the encodings of two characters stand to each other: they differ at some byte that both
/// have, and there the smaller character has the smaller byte.
proof fn lemma_scalars_ordered(c: u32, d: u32) -> (k: int)
    requires
        vstd::utf8::is_scalar(c),
        vstd::utf8::is_scalar(d),
        c < d,
    ensures
        ({
            let (x, y) = (vstd::utf8::encode_scalar(c), vstd::utf8::encode_scalar(d));
            &&& 0 <= k < x.len()
            &&& k < y.len()
            &&& forall|i: int| 0 <= i < k ==> x[i] == y[i]
            &&& x[k] < y[k]
        }),
{
    let (x, y) = (vstd::utf8::encode_scalar(c), vstd::utf8::encode_scalar(d));
    if vstd::utf8::has_width_1_encoding(d) {
        assert(vstd::utf8::leading_byte_width_1(c) < vstd::utf8::leading_byte_width_1(d))
            by (bit_vector)
            requires
                c < d,
                d <= 0x7f,
        ;
        0
    } else if vstd::utf8::has_width_2_encoding(d) {
        if vstd::utf8::has_width_1_encoding(c) {
            assert(vstd::utf8::leading_byte_width_1(c) < vstd::utf8::leading_byte_width_2(d))
                by (bit_vector)
                requires
                    c <= 0x7f,
                    0x80 <= d <= 0x7ff,
            ;
            0
        } else {
            assert(vstd::utf8::leading_byte_width_2(c) < vstd::utf8::leading_byte_width_2(d) || (
            vstd::utf8::leading_byte_width_2(c) == vstd::utf8::leading_byte_width_2(d)
                && vstd::utf8::last_continuation_byte(c) < vstd::utf8::last_continuation_byte(d)))
                by (bit_vector)
                requires
                    c < d,
                    0x80 <= c <= 0x7ff,
                    0x80 <= d <= 0x7ff,
            ;
            if x[0] < y[0] {
                0
            } else {
                1
            }
        }
    } else if vstd::utf8::has_width_3_encoding(d) {
        if vstd::utf8::has_width_1_encoding(c) {
            assert(vstd::utf8::leading_byte_width_1(c) < vstd::utf8::leading_byte_width_3(d))
                by (bit_vector)
                requires
                    c <= 0x7f,
                    0x800 <= d <= 0xffff,
            ;
            0
        } else if vstd::utf8::has_width_2_encoding(c) {
            assert(vstd::utf8::leading_byte_width_2(c) < vstd::utf8::leading_byte_width_3(d))
                by (bit_vector)
                requires
                    0x80 <= c <= 0x7ff,
                    0x800 <= d <= 0xffff,
            ;
            0
        } else {
            assert(vstd::utf8::leading_byte_width_3(c) < vstd::utf8::leading_byte_width_3(d) || (
            vstd::utf8::leading_byte_width_3(c) == vstd::utf8::leading_byte_width_3(d) && (
            vstd::utf8::second_last_continuation_byte(c)
                < vstd::utf8::second_last_continuation_byte(d) || (
            vstd::utf8::second_last_continuation_byte(c)
                == vstd::utf8::second_last_continuation_byte(d)
                && vstd::utf8::last_continuation_byte(c) < vstd::utf8::last_continuation_byte(
                d,
            ))))) by (bit_vector)
                requires
                    c < d,
                    0x800 <= c <= 0xffff,
                    0x800 <= d <= 0xffff,
            ;
            if x[0] < y[0] {
                0
            } else if x[1] < y[1] {
                1
            } else {
                2
            }
        }
    } else {
        if vstd::utf8::has_width_1_encoding(c) {
            assert(vstd::utf8::leading_byte_width_1(c) < vstd::utf8::leading_byte_width_4(d))
                by (bit_vector)
                requires
                    c <= 0x7f,
                    0x10000 <= d <= 0x10ffff,
            ;
            0
        } else if vstd::utf8::has_width_2_encoding(c) {
            assert(vstd::utf8::leading_byte_width_2(c) < vstd::utf8::leading_byte_width_4(d))
                by (bit_vector)
                requires
                    0x80 <= c <= 0x7ff,
                    0x10000 <= d <= 0x10ffff,
            ;
            0
        } else if vstd::utf8::has_width_3_encoding(c) {
            assert(vstd::utf8::leading_byte_width_3(c) < vstd::utf8::leading_byte_width_4(d))
                by (bit_vector)
                requires
                    0x800 <= c <= 0xffff,
                    0x10000 <= d <= 0x10ffff,
            ;
            0
        } else {
            assert(vstd::utf8::leading_byte_width_4(c) < vstd::utf8::leading_byte_width_4(d) || (
            vstd::utf8::leading_byte_width_4(c) == vstd::utf8::leading_byte_width_4(d) && (
            vstd::utf8::third_last_continuation_byte(c) < vstd::utf8::third_last_continuation_byte(
                d,
            ) || (vstd::utf8::third_last_continuation_byte(c)
                == vstd::utf8::third_last_continuation_byte(d) && (
            vstd::utf8::second_last_continuation_byte(c)
                < vstd::utf8::second_last_continuation_byte(d) || (
            vstd::utf8::second_last_continuation_byte(c)
                == vstd::utf8::second_last_continuation_byte(d)
                && vstd::utf8::last_continuation_byte(c) < vstd::utf8::last_continuation_byte(
                d,
            ))))))) by (bit_vector)
                requires
                    c < d,
                    0x10000 <= c <= 0x10ffff,
                    0x10000 <= d <= 0x10ffff,
            ;
            if x[0] < y[0] {
                0
            } else if x[1] < y[1] {
                1
            } else if x[2] < y[2] {
                2
            } else {
                3
            }
        }
    }
}

/// Strings are ordered by the first character in which they differ.
pub proof fn law_first_difference_decides(
    shared: Seq<char>,
    c: char,
    a: Seq<char>,
    d: char,
    b: Seq<char>,
)
    requires
        c < d,
    ensures
        text::before(shared + seq![c] + a, shared + seq![d] + b),
        !text::before(shared + seq![d] + b, shared + seq![c] + a),
{
    let (x, y) = (shared + seq![c] + a, shared + seq![d] + b);
    lemma_utf8_add(shared + seq![c], a);
    lemma_utf8_add(shared, seq![c]);
    lemma_utf8_add(shared + seq![d], b);
    lemma_utf8_add(shared, seq![d]);
    vstd::utf8::char_is_scalar(c);
    vstd::utf8::char_is_scalar(d);
    let k = lemma_scalars_ordered(c as u32, d as u32);
    let (p, q) = (vstd::utf8::encode_utf8(x), vstd::utf8::encode_utf8(y));
    let head = vstd::utf8::encode_utf8(shared);
    reveal_with_fuel(vstd::utf8::encode_utf8, 2);
    assert(seq![c].drop_first() =~= Seq::<char>::empty());
    assert(seq![d].drop_first() =~= Seq::<char>::empty());
    assert(vstd::utf8::encode_utf8(seq![c]) =~= vstd::utf8::encode_scalar(c as u32));
    assert(vstd::utf8::encode_utf8(seq![d]) =~= vstd::utf8::encode_scalar(d as u32));
    let at = head.len() + k;
    assert(p[at] == vstd::utf8::encode_scalar(c as u32)[k]);
    assert(q[at] == vstd::utf8::encode_scalar(d as u32)[k]);
    assert forall|i: int| 0 <= i < at implies p[i] == q[i] by {
        if i >= head.len() {
            let j = i - head.len();
            assert(p[i] == vstd::utf8::encode_scalar(c as u32)[j]);
            assert(q[i] == vstd::utf8::encode_scalar(d as u32)[j]);
        }
    }
    assert(text::parts_at(p, q, at));
    if text::before(y, x) {
        text::lemma_before_transitive(x, y, x);
        text::lemma_before_irreflexive(x);
    }
}

/// Trimming takes off white space only, at the start and at the end, and all of it there.
pub proof fn law_trimming(s: Seq<char>) -> (span: (int, int))
    ensures
        0 <= span.0 <= span.1 <= s.len(),
        lines::trimmed(s) == s.subrange(span.0, span.1),
        forall|i: int|
            0 <= i < span.0 || span.1 <= i < s.len() ==> lines::white_space(#[trigger] s[i]),
        lines::trimmed(s).len() > 0 ==> !lines::white_space(lines::trimmed(s)[0])
            && !lines::white_space(lines::trimmed(s).last()),
    decreases s.len(),
{
    if s.len() == 0 {
        assert(s.subrange(0, 0) =~= s);
        (0, 0)
    } else if lines::white_space(s[0]) {
        let rest = s.drop_first();
        let (i, j) = law_trimming(rest);
        assert(s.subrange(i + 1, j + 1) =~= rest.subrange(i, j));
        assert forall|k: int| 0 <= k < i + 1 || j + 1 <= k < s.len() implies lines::white_space(
            #[trigger] s[k],
        ) by {
            if k > 0 {
                assert(rest[k - 1] == s[k]);
            }
        }
        (i + 1, j + 1)
    } else if lines::white_space(s.last()) {
        let rest = s.drop_last();
        let (i, j) = law_trimming(rest);
        assert(s.subrange(i, j) =~= rest.subrange(i, j));
        assert forall|k: int| 0 <= k < i || j <= k < s.len() implies lines::white_space(
            #[trigger] s[k],
        ) by {
            if k < rest.len() {
                assert(rest[k] == s[k]);
            }
        }
        (i, j)
    } else {
        assert(s.subrange(0, s.len() as int) =~= s);
        (0, s.len() as int)
    }
}

/// The line of a value is its compact text and a line break.
pub proof fn law_line_is_text_and_break(value: Json)
    ensures
        lines::line_of(value).len() == json::compact_form(value).len() + 1,
        lines::line_of(value).drop_last() == json::compact_form(value),
        lines::line_of(value).last() == '\n',
{
    reveal_strlit("\n");
    assert(lines::line_of(value).drop_last() =~= json::compact_form(value));
}

/// A line is read as what the text on it stands for, where that is not empty; a line of nothing
/// but white space stands for nothing.
pub proof fn law_line_is_read_by_its_text(text: Seq<char>)
    ensures
        text.len() > 0 && !lines::white_space(text[0]) && !lines::white_space(text.last())
            ==> lines::line_value(text + seq!['\n']) == json::parsed(text),
        (forall|i: int| 0 <= i < text.len() ==> lines::white_space(#[trigger] text[i]))
            ==> lines::line_value(text) is None,
{
    if text.len() > 0 && !lines::white_space(text[0]) && !lines::white_space(text.last()) {
        reveal_strlit("\n");
        assert("\n"@ =~= seq!['\n']);
        lines::law_line_break_is_no_content(text);
    }
    let (i, j) = law_trimming(text);
    if forall|k: int| 0 <= k < text.len() ==> lines::white_space(#[trigger] text[k]) {
        if i < j {
            assert(lines::white_space(text[i]));
            assert(lines::trimmed(text)[0] == text[i]);
        }
    }
}

/// The value of a hexadecimal digit.
pub open spec fn nibble(c: char) -> int {
    if '0' <= c <= '9' {
        c as int - '0' as int
    } else {
        c as int - 'a' as int + 10
    }
}

/// Bytes in hexadecimal are two digits for each, which stand for it.
pub proof fn law_hex_stands_for_the_bytes(data: Seq<u8>, i: int)
    requires
        0 <= i < data.len(),
    ensures
        token::hex_form(data).len() == 2 * data.len(),
        nibble(token::hex_form(data)[2 * i]) * 16 + nibble(token::hex_form(data)[2 * i + 1])
            == data[i],
    decreases data.len(),
{
    let f = |b: u8| seq![token::hex_digit(b as int / 16), token::hex_digit(b as int % 16)];
    let rest = data.drop_last();
    let n = data.len() - 1;
    data.lemma_flat_map_take_append(f, n);
    assert(data.take(n) =~= rest);
    assert(data.take(n + 1) =~= data);
    if rest.len() > 0 {
        let k = if i < n { i } else { 0 };
        law_hex_stands_for_the_bytes(rest, k);
    } else {
        assert(rest.flat_map(f) =~= Seq::<char>::empty());
    }
}

/// A target goes by the name of the first entry that is its own.
pub proof fn law_first_name_counts(names: Seq<(TargetId, String)>, target: TargetId, i: int)
    requires
        0 <= i < names.len(),
        names[i].0 == target,
        forall|k: int| 0 <= k < i ==> (#[trigger] names[k]).0 != target,
    ensures
        transcript::listed_name(names, target) == names[i].1@,
    decreases names.len(),
{
    if i > 0 {
        assert(names[0].0 != target);
        let rest = names.drop_first();
        assert forall|k: int| 0 <= k < i - 1 implies (#[trigger] rest[k]).0 != target by {
            assert(rest[k] == names[k + 1]);
        }
        law_first_name_counts(rest, target, i - 1);
    }
}

} // verus!
