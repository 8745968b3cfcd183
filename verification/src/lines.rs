//! JSON values on lines of their own.
use serde_json::Value;
use vstd::prelude::*;

use crate::json;
use crate::json::Json;
use crate::text;

verus! {

/// Whether a character has the Unicode property White_Space.
pub open spec fn white_space(c: char) -> bool {
    let n = c as int;
    ||| 0x9 <= n <= 0xd
    ||| n == 0x20
    ||| n == 0x85
    ||| n == 0xa0
    ||| n == 0x1680
    ||| 0x2000 <= n <= 0x200a
    ||| n == 0x2028
    ||| n == 0x2029
    ||| n == 0x202f
    ||| n == 0x205f
    ||| n == 0x3000
}

/// A text without the white space at its start and at its end.
pub open spec fn trimmed(s: Seq<char>) -> Seq<char>
    decreases s.len(),
{
    if s.len() == 0 {
        s
    } else if white_space(s[0]) {
        trimmed(s.drop_first())
    } else if white_space(s.last()) {
        trimmed(s.drop_last())
    } else {
        s
    }
}

/// `str::trim` of std: leading and trailing white space removed.
#[verifier::external_body]
fn trim(s: &str) -> (r: &str)
    ensures
        r@ == trimmed(s@),
{
    s.trim()
}

/// Why a line gives no value.
#[derive(Debug)]
pub enum LineError {
    /// The stream has ended.
    Closed,
    /// The line holds nothing but white space.
    Empty,
    /// The line, which is given without surrounding white space, is no JSON.
    Malformed { line: String, error: serde_json::Error },
}

impl LineError {
    /// What is said of a line that gives no value.
    pub open spec fn says(self) -> Seq<char> {
        match self {
            LineError::Closed => "stream closed by peer"@,
            LineError::Empty => "empty JSON line"@,
            LineError::Malformed { line, .. } => "decoding JSON-RPC line: "@ + line@,
        }
    }

    /// What is said of a line that gives no value. The parser's own words are in the error.
    pub fn message(&self) -> (r: String)
        ensures
            r@ == self.says(),
    {
        match self {
            LineError::Closed => "stream closed by peer".to_string(),
            LineError::Empty => "empty JSON line".to_string(),
            LineError::Malformed { line, .. } => {
                let mut r = "decoding JSON-RPC line: ".to_string();
                r.append(line.as_str());
                r
            },
        }
    }
}

/// Reads the value on a line of which `n` bytes were read.
pub fn decode_line(n: usize, line: &str) -> (r: Result<Value, LineError>)
    ensures
        n == 0 ==> r is Err && r->Err_0 is Closed,
        n > 0 && trimmed(line@).len() == 0 ==> r is Err && r->Err_0 is Empty,
        n > 0 && trimmed(line@).len() > 0 ==> match json::parsed(trimmed(line@)) {
            Some(value) => r is Ok && json::json_of(r->Ok_0) == value,
            None => r is Err && r->Err_0 is Malformed && r->Err_0->line@ == trimmed(line@),
        },
{
    if n == 0 {
        return Err(LineError::Closed);
    }
    let rest = trim(line);
    if rest.is_empty() {
        return Err(LineError::Empty);
    }
    match json::parse(rest) {
        Ok(value) => Ok(value),
        Err(error) => Err(LineError::Malformed { line: rest.to_string(), error }),
    }
}

/// The line that a value is written as.
pub open spec fn line_of(value: Json) -> Seq<char> {
    json::compact_form(value) + "\n"@
}

/// The value that a line is read as, if any.
pub open spec fn line_value(line: Seq<char>) -> Option<Json> {
    if trimmed(line).len() == 0 {
        None
    } else {
        json::parsed(trimmed(line))
    }
}

/// Whether the line of a value holds one line break, at its end, and reads as the value.
pub open spec fn reads_back(value: Json) -> bool {
    &&& !json::compact_form(value).contains('\n')
    &&& line_value(line_of(value)) == Some(value)
}

/// Writes a value as a line of bytes: the one line break is at the end, and where the value has
/// no floats and is not nested too deeply, the line reads as the value.
pub fn encode_line(value: &Value) -> (r: Result<Vec<u8>, serde_json::Error>)
    ensures
        r is Ok,
        r->Ok_0@ == vstd::utf8::encode_utf8(line_of(json::json_of(*value))),
        forall|i: int|
            0 <= i < r->Ok_0@.len() ==> (#[trigger] r->Ok_0@[i] == 10 <==> i == r->Ok_0@.len() - 1),
        r->Ok_0@.len() > 0,
        json::plain(json::json_of(*value), 127) ==> reads_back(json::json_of(*value)),
{
    match json::to_bytes(value) {
        Ok(bytes) => {
            proof {
                reveal_strlit("\n");
                let text = json::compact_form(json::json_of(*value));
                vstd::utf8::encode_utf8_decode_utf8(text);
                assert("\n"@ =~= seq!['\n']);
                text::lemma_utf8_push(text, '\n');
                assert(text.push('\n') =~= text + "\n"@);
                lemma_end_of_utf8();
                law_line_break_is_no_content(text);
            }
            let mut line: Vec<u8> = bytes;
            line.push(10);
            Ok(line)
        },
        Err(error) => Err(error),
    }
}

/// Writes a value as a line of text: the one line break is at the end, and where the value has
/// no floats and is not nested too deeply, the line reads as the value.
pub fn encode_text_line(value: &Value) -> (r: Result<String, serde_json::Error>)
    ensures
        r is Ok,
        r->Ok_0@ == line_of(json::json_of(*value)),
        one_line(r->Ok_0@),
        json::plain(json::json_of(*value), 127) ==> reads_back(json::json_of(*value)),
{
    match json::to_compact(value) {
        Ok(text) => {
            proof {
                reveal_strlit("\n");
                law_line_break_is_no_content(text@);
            }
            let mut line: String = text;
            line.append("\n");
            Ok(line)
        },
        Err(error) => Err(error),
    }
}

/// Whether a text is one line: it holds one line break, at its end.
pub open spec fn one_line(text: Seq<char>) -> bool {
    &&& text.len() > 0
    &&& forall|i: int|
        0 <= i < text.len() ==> (#[trigger] text[i] == '\n' <==> i == text.len() - 1)
}

/// A line break is one byte.
proof fn lemma_end_of_utf8()
    ensures
        vstd::utf8::encode_utf8(seq!['\n']) == seq![10u8],
{
    reveal_with_fuel(vstd::utf8::encode_utf8, 2);
    assert(seq!['\n'].drop_first() =~= Seq::<char>::empty());
    assert(vstd::utf8::encode_scalar('\n' as u32) =~= seq![10u8]) by {
        assert(((10u32 & 0x7F) as u8) == 10) by (bit_vector);
    }
    assert(vstd::utf8::encode_utf8(seq!['\n']) =~= seq![10u8]);
}

/// The line break that ends a line is no part of what the line says: a text without white space
/// around it is read back from its line.
pub proof fn law_line_break_is_no_content(text: Seq<char>)
    requires
        text.len() > 0,
        !white_space(text[0]),
        !white_space(text.last()),
    ensures
        trimmed(text + "\n"@) == text,
{
    reveal_strlit("\n");
    let line = text + "\n"@;
    assert(line[0] == text[0] && line.last() == '\n');
    assert(line.drop_last() =~= text);
    reveal_with_fuel(trimmed, 2);
}

/// The lines of some values, one after the other.
pub open spec fn stream(values: Seq<Json>) -> Seq<char>
    decreases values.len(),
{
    if values.len() == 0 {
        seq![]
    } else {
        line_of(values[0]) + stream(values.drop_first())
    }
}

/// How many characters the first line of a text has, its line break included.
pub open spec fn first_line(text: Seq<char>) -> nat
    decreases text.len(),
{
    if text.len() == 0 {
        0
    } else if text[0] == '\n' {
        1
    } else {
        1 + first_line(text.drop_first())
    }
}

/// A text that is not empty has a first line, which is no longer than the text.
pub proof fn lemma_first_line(text: Seq<char>)
    ensures
        first_line(text) <= text.len(),
        text.len() > 0 ==> first_line(text) > 0,
    decreases text.len(),
{
    if text.len() > 0 {
        lemma_first_line(text.drop_first());
    }
}

/// What the lines of a text are read as, one by one.
pub open spec fn read_values(text: Seq<char>) -> Seq<Option<Json>>
    decreases text.len(),
{
    if text.len() == 0 {
        seq![]
    } else {
        proof {
            lemma_first_line(text);
        }
        let n = first_line(text) as int;
        seq![line_value(text.take(n))] + read_values(text.skip(n))
    }
}

/// Where a text without line breaks is followed by one, the first line ends there.
proof fn lemma_line_end(text: Seq<char>, rest: Seq<char>)
    requires
        !text.contains('\n'),
    ensures
        first_line(text + seq!['\n'] + rest) == text.len() + 1,
    decreases text.len(),
{
    let all = text + seq!['\n'] + rest;
    if text.len() > 0 {
        assert(text.contains(text[0]));
        assert(all.drop_first() =~= text.drop_first() + seq!['\n'] + rest);
        assert forall|i: int| 0 <= i < text.drop_first().len() implies text.drop_first()[i]
            != '\n' by {
            assert(text.contains(text[i + 1]));
        }
        lemma_line_end(text.drop_first(), rest);
    } else {
        assert(all[0] == '\n');
    }
}

/// Values that are written one after another are read back one by one, in order, where the line
/// of each reads as its value. [`encode_line`] says of which values that holds.
pub proof fn law_values_are_read_in_order(values: Seq<Json>)
    requires
        forall|i: int| 0 <= i < values.len() ==> reads_back(#[trigger] values[i]),
    ensures
        read_values(stream(values)) == values.map_values(|v: Json| Some(v)),
    decreases values.len(),
{
    if values.len() > 0 {
        let rest = values.drop_first();
        assert forall|i: int| 0 <= i < rest.len() implies reads_back(#[trigger] rest[i]) by {
            assert(rest[i] == values[i + 1]);
        }
        law_values_are_read_in_order(rest);
        reveal_strlit("\n");
        assert("\n"@ =~= seq!['\n']);
        let text = json::compact_form(values[0]);
        let all = stream(values);
        assert(reads_back(values[0]));
        lemma_line_end(text, stream(rest));
        assert(all =~= text + seq!['\n'] + stream(rest));
        let n = text.len() + 1;
        assert(all.take(n as int) =~= line_of(values[0]));
        assert(all.skip(n as int) =~= stream(rest));
        assert(read_values(all) == seq![Some(values[0])] + read_values(stream(rest)));
    }
    assert(read_values(stream(values)) =~= values.map_values(|v: Json| Some(v)));
}

} // verus!
