//! The JSON that the host writes for plugin code, and JSON texts read back.
use vstd::prelude::*;

verus! {

/// `char::from_u32` of the standard library gives the character with that code
/// point, and none for a number that is the code point of no character: a
/// surrogate, or a number beyond the last code point.
pub assume_specification[ char::from_u32 ](i: u32) -> (c: Option<char>)
    ensures
        c == if i < 0xd800 || 0xe000 <= i <= 0x10ffff {
            Some(i as char)
        } else {
            None
        },
;

// ---------------------------------------------------------------------
// Writing
// ---------------------------------------------------------------------

/// What one character becomes inside a JSON text.
pub open spec fn json_char(c: char) -> Seq<char> {
    if c == '"' || c == '\\' {
        seq!['\\', c]
    } else if c == '\x08' {
        seq!['\\', 'b']
    } else if c == '\t' {
        seq!['\\', 't']
    } else if c == '\n' {
        seq!['\\', 'n']
    } else if c == '\x0c' {
        seq!['\\', 'f']
    } else if c == '\r' {
        seq!['\\', 'r']
    } else if (c as int) < 0x20 {
        seq![
            '\\',
            'u',
            '0',
            '0',
            crate::text::digit(c as int / 16),
            crate::text::digit(c as int % 16),
        ]
    } else {
        seq![c]
    }
}

/// The inside of the JSON text that stands for `s`.
pub open spec fn json_escaped(s: Seq<char>) -> Seq<char>
    decreases s.len(),
{
    if s.len() == 0 {
        Seq::empty()
    } else {
        json_escaped(s.drop_last()) + json_char(s.last())
    }
}

/// The JSON text that stands for `s`, with its quotes.
pub open spec fn json_text(s: Seq<char>) -> Seq<char> {
    seq!['"'] + json_escaped(s) + seq!['"']
}

/// A value of a field.
#[derive(Debug, PartialEq, Eq)]
pub enum JsonScalar {
    Text(String),
    Flag(bool),
}

/// The mathematical form of a [`JsonScalar`].
pub enum JsonScalarView {
    Text(Seq<char>),
    Flag(bool),
}

impl DeepView for JsonScalar {
    type V = JsonScalarView;

    open spec fn deep_view(&self) -> JsonScalarView {
        match self {
            JsonScalar::Text(s) => JsonScalarView::Text(s@),
            JsonScalar::Flag(b) => JsonScalarView::Flag(*b),
        }
    }
}

/// A field of an object.
pub open spec fn field_json(field: (Seq<char>, JsonScalarView)) -> Seq<char> {
    json_text(field.0) + seq![':'] + (match field.1 {
        JsonScalarView::Text(s) => json_text(s),
        JsonScalarView::Flag(b) => if b {
            "true"@
        } else {
            "false"@
        },
    })
}

/// Fields with commas between them.
pub open spec fn fields_json(fields: Seq<(Seq<char>, JsonScalarView)>) -> Seq<char>
    decreases fields.len(),
{
    if fields.len() == 0 {
        Seq::empty()
    } else if fields.len() == 1 {
        field_json(fields[0])
    } else {
        fields_json(fields.drop_last()) + seq![','] + field_json(fields.last())
    }
}

/// An object, without blanks.
pub open spec fn object_json(fields: Seq<(Seq<char>, JsonScalarView)>) -> Seq<char> {
    seq!['{'] + fields_json(fields) + seq!['}']
}

/// Whether the names of the fields ascend, so that none occurs twice.
pub open spec fn ascending(fields: Seq<(Seq<char>, JsonScalarView)>) -> bool {
    forall|i: int, j: int|
        0 <= i < j < fields.len() ==> (#[trigger] fields[i]).0 != (#[trigger] fields[j]).0
            && crate::order::text_le(fields[i].0, fields[j].0)
}

/// `to_string` of a `serde_json::Value` that holds an object of texts and
/// booleans. The crate keeps the fields in the order of their names and writes
/// them without blanks. Names and texts stand in quotes; it escapes quotes,
/// backslashes and the control characters below the blank, and no others.
#[verifier::external_body]
pub(crate) fn object_text(fields: &Vec<(String, JsonScalar)>) -> (out: String)
    requires
        ascending(fields.deep_view()),
    ensures
        out@ == object_json(fields.deep_view()),
{
    let map: serde_json::Map<String, serde_json::Value> = fields
        .iter()
        .map(|(name, value)| match value {
            JsonScalar::Text(s) => (name.clone(), serde_json::Value::from(s.as_str())),
            JsonScalar::Flag(b) => (name.clone(), serde_json::Value::from(*b)),
        })
        .collect();
    serde_json::Value::Object(map).to_string()
}

// ---------------------------------------------------------------------
// Reading
// ---------------------------------------------------------------------

/// The character that a backslash and `c` stand for, for the escapes of one
/// letter.
pub open spec fn json_code(c: char) -> Option<char> {
    if c == '"' || c == '\\' || c == '/' {
        Some(c)
    } else if c == 'b' {
        Some('\x08')
    } else if c == 'f' {
        Some('\x0c')
    } else if c == 'n' {
        Some('\n')
    } else if c == 'r' {
        Some('\r')
    } else if c == 't' {
        Some('\t')
    } else {
        None
    }
}

/// The code point of four hexadecimal digits.
pub open spec fn code_point(a: char, b: char, c: char, d: char) -> Option<int> {
    match (
        crate::escape::hex_value(a),
        crate::escape::hex_value(b),
        crate::escape::hex_value(c),
        crate::escape::hex_value(d),
    ) {
        (Some(w), Some(x), Some(y), Some(z)) => Some(w * 4096 + x * 256 + y * 16 + z),
        _ => None,
    }
}

/// Whether a code point of four digits is a character of its own.
pub open spec fn is_scalar(point: int) -> bool {
    point < 0xd800 || point >= 0xe000
}

/// The character that two escapes of four digits stand for together: the first
/// and the second half of a surrogate pair.
pub open spec fn pair_point(high: int, low: int) -> int {
    0x10000 + (high - 0xd800) * 0x400 + (low - 0xdc00)
}

/// The code point of a surrogate pair, where a text begins with one.
pub open spec fn leading_pair(s: Seq<char>) -> Option<int> {
    if s.len() >= 12 && s[0] == '\\' && s[1] == 'u' && s[6] == '\\' && s[7] == 'u' {
        match (code_point(s[2], s[3], s[4], s[5]), code_point(s[8], s[9], s[10], s[11])) {
            (Some(high), Some(low)) => if 0xd800 <= high < 0xdc00 && 0xdc00 <= low < 0xe000 {
                Some(pair_point(high, low))
            } else {
                None
            },
            _ => None,
        }
    } else {
        None
    }
}

/// A character in front of what was read.
pub open spec fn in_front(
    c: char,
    read: Option<(Seq<char>, Seq<char>)>,
) -> Option<(Seq<char>, Seq<char>)> {
    match read {
        Some((text, rest)) => Some((seq![c] + text, rest)),
        None => None,
    }
}

/// Reads what stands behind the opening quote of a JSON text: the text and
/// what stands behind its closing quote. `None` where the text is unfinished,
/// or an escape in it is malformed or stands for half a surrogate pair alone.
pub open spec fn read_json(s: Seq<char>) -> Option<(Seq<char>, Seq<char>)>
    decreases s.len(),
{
    if s.len() == 0 {
        None
    } else if s[0] == '"' {
        Some((Seq::empty(), s.skip(1)))
    } else if s[0] != '\\' {
        in_front(s[0], read_json(s.skip(1)))
    } else if s.len() >= 2 && json_code(s[1]) is Some {
        in_front(json_code(s[1])->0, read_json(s.skip(2)))
    } else if s.len() >= 6 && s[1] == 'u' && (code_point(s[2], s[3], s[4], s[5]) matches Some(
        point,
    ) && is_scalar(point)) {
        in_front(code_point(s[2], s[3], s[4], s[5])->0 as char, read_json(s.skip(6)))
    } else if leading_pair(s) is Some {
        in_front(leading_pair(s)->0 as char, read_json(s.skip(12)))
    } else {
        None
    }
}

fn hex_of(c: char) -> (out: Option<u32>)
    ensures
        match crate::escape::hex_value(c) {
            Some(v) => out matches Some(x) && x == v && v < 16,
            None => out is None,
        },
{
    if '0' <= c && c <= '9' {
        Some(c as u32 - 48)
    } else if 'a' <= c && c <= 'f' {
        Some(c as u32 - 87)
    } else if 'A' <= c && c <= 'F' {
        Some(c as u32 - 55)
    } else {
        None
    }
}

fn code_of(c: char) -> (out: Option<char>)
    ensures
        out == json_code(c),
{
    if c == '"' || c == '\\' || c == '/' {
        Some(c)
    } else if c == 'b' {
        Some('\x08')
    } else if c == 'f' {
        Some('\x0c')
    } else if c == 'n' {
        Some('\n')
    } else if c == 'r' {
        Some('\r')
    } else if c == 't' {
        Some('\t')
    } else {
        None
    }
}

fn unit_of(a: char, b: char, c: char, d: char) -> (out: Option<u32>)
    ensures
        match code_point(a, b, c, d) {
            Some(point) => out matches Some(unit) && unit == point && 0 <= point < 0x10000,
            None => out is None,
        },
{
    match (hex_of(a), hex_of(b), hex_of(c), hex_of(d)) {
        (Some(w), Some(x), Some(y), Some(z)) => Some(w * 4096 + x * 256 + y * 16 + z),
        _ => None,
    }
}

/// Reads an escape of four digits, or a pair of them, at `at`: the character,
/// and how long it is written.
fn read_escape(chars: &Vec<char>, at: usize) -> (out: Option<(char, usize)>)
    requires
        at + 2 <= chars@.len(),
        chars@[at as int] == '\\',
        json_code(chars@[at + 1]) is None,
    ensures
        out matches Some(found) ==> {
            &&& 6 <= found.1 <= chars@.len() - at
            &&& read_json(chars@.skip(at as int)) == in_front(
                found.0,
                read_json(chars@.skip(at + found.1)),
            )
        },
        out is None ==> read_json(chars@.skip(at as int)) is None,
{
    let total: usize = chars.len();
    let ghost s = chars@.skip(at as int);
    assert(s[0] == chars@[at as int] && s[1] == chars@[at + 1]);
    if total - at < 6 || chars[at + 1] != 'u' {
        return None;
    }
    assert(s[2] == chars@[at + 2] && s[3] == chars@[at + 3]);
    assert(s[4] == chars@[at + 4] && s[5] == chars@[at + 5]);
    assert(s.skip(6) =~= chars@.skip(at + 6));
    let high: u32 = match unit_of(chars[at + 2], chars[at + 3], chars[at + 4], chars[at + 5]) {
        Some(unit) => unit,
        None => {
            return None;
        },
    };
    if high < 0xd800 || high >= 0xe000 {
        return match char::from_u32(high) {
            Some(c) => Some((c, 6)),
            None => None,
        };
    }
    if total - at < 12 || high >= 0xdc00 {
        return None;
    }
    assert(s[6] == chars@[at + 6] && s[7] == chars@[at + 7]);
    assert(s[8] == chars@[at + 8] && s[9] == chars@[at + 9]);
    assert(s[10] == chars@[at + 10] && s[11] == chars@[at + 11]);
    assert(s.skip(12) =~= chars@.skip(at + 12));
    if chars[at + 6] != '\\' || chars[at + 7] != 'u' {
        return None;
    }
    match unit_of(chars[at + 8], chars[at + 9], chars[at + 10], chars[at + 11]) {
        Some(low) => {
            if low < 0xdc00 || low >= 0xe000 {
                return None;
            }
            match char::from_u32(0x10000 + (high - 0xd800) * 0x400 + (low - 0xdc00)) {
                Some(c) => Some((c, 12)),
                None => None,
            }
        },
        None => None,
    }
}

/// A text in front of what was read.
pub open spec fn text_in_front(
    head: Seq<char>,
    read: Option<(Seq<char>, Seq<char>)>,
) -> Option<(Seq<char>, Seq<char>)> {
    match read {
        Some((text, rest)) => Some((head + text, rest)),
        None => None,
    }
}

/// Reads a JSON text from behind its opening quote: the text, and where its
/// closing quote ends.
pub fn read_json_text(chars: &Vec<char>, from: usize) -> (out: Option<(String, usize)>)
    requires
        from <= chars@.len(),
    ensures
        match read_json(chars@.skip(from as int)) {
            Some((text, rest)) => {
                &&& out matches Some(found)
                &&& found.0@ == text
                &&& found.1 <= chars@.len()
                &&& rest == chars@.skip(found.1 as int)
            },
            None => out is None,
        },
{
    let mut text = String::new();
    let mut i: usize = from;
    let total: usize = chars.len();
    let ghost whole = read_json(chars@.skip(from as int));
    proof {
        if let Some((t, r)) = whole {
            assert(text@ + t =~= t);
        }
    }
    while i < total
        invariant
            from <= i <= total,
            total == chars@.len(),
            whole == read_json(chars@.skip(from as int)),
            whole == text_in_front(text@, read_json(chars@.skip(i as int))),
        decreases total - i,
    {
        let ghost s = chars@.skip(i as int);
        let ghost before = text@;
        let c = chars[i];
        assert(s[0] == c);
        assert(s.skip(1) =~= chars@.skip(i + 1));
        let mut next: usize = i + 1;
        let read = if c == '"' {
            assert(before + Seq::<char>::empty() =~= before);
            return Some((text, i + 1));
        } else if c != '\\' {
            c
        } else if total - i < 2 {
            return None;
        } else {
            assert(s[1] == chars@[i + 1]);
            assert(s.skip(2) =~= chars@.skip(i + 2));
            match code_of(chars[i + 1]) {
                Some(x) => {
                    next = i + 2;
                    x
                },
                None => match read_escape(chars, i) {
                    Some((x, length)) => {
                        next = i + length;
                        x
                    },
                    None => {
                        return None;
                    },
                },
            }
        };
        text.push(read);
        proof {
            assert(read_json(s) == in_front(read, read_json(chars@.skip(next as int))));
            if let Some((t, r)) = read_json(chars@.skip(next as int)) {
                assert(before + (seq![read] + t) =~= before.push(read) + t);
            }
        }
        i = next;
    }
    None
}

// ---------------------------------------------------------------------
// Laws
// ---------------------------------------------------------------------

proof fn lemma_read_json_char(c: char, tail: Seq<char>)
    ensures
        read_json(json_char(c) + tail) == in_front(c, read_json(tail)),
{
    let code = json_char(c);
    let s = code + tail;
    if code.len() == 1 {
        assert(s.skip(1) =~= tail);
    } else if code.len() == 2 {
        assert(s.skip(2) =~= tail);
        assert(s[0] == '\\');
        assert(s[1] == code[1]);
    } else {
        assert(s.skip(6) =~= tail);
        assert(s[0] == '\\' && s[1] == 'u' && s[2] == '0' && s[3] == '0');
        assert(s[4] == crate::text::digit(c as int / 16));
        assert(s[5] == crate::text::digit(c as int % 16));
        assert(crate::escape::hex_value(s[4]) == Some(c as int / 16));
        assert(crate::escape::hex_value(s[5]) == Some(c as int % 16));
        assert(code_point(s[2], s[3], s[4], s[5]) == Some(c as int));
        assert(c as int as char == c);
    }
}

proof fn lemma_read_json_escaped(s: Seq<char>, tail: Seq<char>)
    ensures
        read_json(json_escaped(s) + tail) == text_in_front(s, read_json(tail)),
    decreases s.len(),
{
    if s.len() == 0 {
        assert(json_escaped(s) + tail =~= tail);
        if let Some((text, rest)) = read_json(tail) {
            assert(s + text =~= text);
        }
    } else {
        let c = s.last();
        let src = json_char(c) + tail;
        lemma_read_json_escaped(s.drop_last(), src);
        lemma_read_json_char(c, tail);
        assert(json_escaped(s) + tail =~= json_escaped(s.drop_last()) + src);
        if let Some((text, rest)) = read_json(tail) {
            assert(s.drop_last() + (seq![c] + text) =~= s + text);
        }
    }
}

/// A text that was written as JSON is read back as that text, whatever
/// characters it holds, and ends where it was written.
pub proof fn lemma_json_round_trip(s: Seq<char>, rest: Seq<char>)
    ensures
        json_text(s)[0] == '"',
        read_json((json_text(s) + rest).skip(1)) == Some((s, rest)),
{
    let tail = seq!['"'] + rest;
    assert((json_text(s) + rest).skip(1) =~= json_escaped(s) + tail);
    lemma_read_json_escaped(s, tail);
    assert(tail.skip(1) =~= rest);
    assert(s + Seq::<char>::empty() =~= s);
}

/// A JSON text is read from its front. A character that is neither a quote nor a
/// backslash stands for itself, and the escapes of one letter for what JSON says,
/// whatever comes behind them.
pub proof fn lemma_json_is_read_from_its_front(
    c: char,
    tail: Seq<char>,
    text: Seq<char>,
    rest: Seq<char>,
)
    requires
        read_json(tail) == Some((text, rest)),
    ensures
        c != '"' && c != '\\' ==> read_json(seq![c] + tail) == Some((seq![c] + text, rest)),
        read_json(seq!['\\', 'n'] + tail) == Some((seq!['\n'] + text, rest)),
        read_json(seq!['\\', 't'] + tail) == Some((seq!['\t'] + text, rest)),
        read_json(seq!['\\', 'r'] + tail) == Some((seq!['\r'] + text, rest)),
        read_json(seq!['\\', 'b'] + tail) == Some((seq!['\x08'] + text, rest)),
        read_json(seq!['\\', 'f'] + tail) == Some((seq!['\x0c'] + text, rest)),
        read_json(seq!['\\', '"'] + tail) == Some((seq!['"'] + text, rest)),
        read_json(seq!['\\', '/'] + tail) == Some((seq!['/'] + text, rest)),
        read_json(seq!['\\', '\\'] + tail) == Some((seq!['\\'] + text, rest)),
        read_json(seq!['"'] + tail) == Some((Seq::<char>::empty(), tail)),
{
    assert((seq![c] + tail).skip(1) =~= tail);
    assert((seq!['"'] + tail).skip(1) =~= tail);
    assert((seq!['\\', 'n'] + tail).skip(2) =~= tail);
    assert((seq!['\\', 't'] + tail).skip(2) =~= tail);
    assert((seq!['\\', 'r'] + tail).skip(2) =~= tail);
    assert((seq!['\\', 'b'] + tail).skip(2) =~= tail);
    assert((seq!['\\', 'f'] + tail).skip(2) =~= tail);
    assert((seq!['\\', '"'] + tail).skip(2) =~= tail);
    assert((seq!['\\', '/'] + tail).skip(2) =~= tail);
    assert((seq!['\\', '\\'] + tail).skip(2) =~= tail);
}

/// The escape of four hexadecimal digits with the value `point`, in small
/// letters.
pub open spec fn unit_escape(point: int) -> Seq<char> {
    seq![
        '\\',
        'u',
        crate::text::digit(point / 4096),
        crate::text::digit(point / 256 % 16),
        crate::text::digit(point / 16 % 16),
        crate::text::digit(point % 16),
    ]
}

proof fn lemma_digit_value(d: int)
    requires
        0 <= d < 16,
    ensures
        crate::escape::hex_value(crate::text::digit(d)) == Some(d),
{
}

proof fn lemma_unit_escape_value(point: int)
    requires
        0 <= point < 0x10000,
    ensures
        ({
            let s = unit_escape(point);
            code_point(s[2], s[3], s[4], s[5]) == Some(point)
        }),
{
    let w = point / 4096;
    let x = point / 256 % 16;
    let y = point / 16 % 16;
    let z = point % 16;
    lemma_digit_value(w);
    lemma_digit_value(x);
    lemma_digit_value(y);
    lemma_digit_value(z);
    let s = unit_escape(point);
    assert(s[2] == crate::text::digit(w));
    assert(s[3] == crate::text::digit(x));
    assert(s[4] == crate::text::digit(y));
    assert(s[5] == crate::text::digit(z));
    lemma_four_digits(point);
}

proof fn lemma_four_digits(point: int)
    requires
        0 <= point < 0x10000,
    ensures
        (point / 4096) * 4096 + (point / 256 % 16) * 256 + (point / 16 % 16) * 16 + point % 16
            == point,
{
    let a = point / 16;
    let b = a / 16;
    assert(point / 256 == b);
    assert(point / 4096 == b / 16);
}

/// An escape of four digits stands for the character with that code point. One
/// behind the other, two halves stand for the one beyond; half a pair alone is
/// no text.
pub proof fn lemma_json_reads_code_points(
    c: char,
    tail: Seq<char>,
    text: Seq<char>,
    rest: Seq<char>,
)
    requires
        read_json(tail) == Some((text, rest)),
        tail[0] != '\\',
    ensures
        (c as int) < 0x10000 ==> read_json(unit_escape(c as int) + tail) == Some(
            (seq![c] + text, rest),
        ),
        c as int >= 0x10000 ==> {
            let high = 0xd800 + (c as int - 0x10000) / 0x400;
            let low = 0xdc00 + (c as int - 0x10000) % 0x400;
            &&& read_json(unit_escape(high) + (unit_escape(low) + tail)) == Some(
                (seq![c] + text, rest),
            )
            &&& read_json(unit_escape(high) + tail) is None
            &&& read_json(unit_escape(low) + tail) is None
        },
{
    let point = c as int;
    assert(point as char == c);
    if point < 0x10000 {
        lemma_unit_is_read(point, tail);
    } else {
        let high = 0xd800 + (point - 0x10000) / 0x400;
        let low = 0xdc00 + (point - 0x10000) % 0x400;
        lemma_halves(point);
        lemma_pair_is_read(high, low, tail);
        lemma_half_is_none(high, tail);
        lemma_half_is_none(low, tail);
    }
}

proof fn lemma_halves(point: int)
    requires
        0x10000 <= point <= 0x10ffff,
    ensures
        ({
            let high = 0xd800 + (point - 0x10000) / 0x400;
            let low = 0xdc00 + (point - 0x10000) % 0x400;
            &&& 0xd800 <= high < 0xdc00
            &&& 0xdc00 <= low < 0xe000
            &&& pair_point(high, low) == point
        }),
{
}

proof fn lemma_unit_front(point: int, tail: Seq<char>)
    requires
        0 <= point < 0x10000,
    ensures
        ({
            let s = unit_escape(point) + tail;
            &&& s.len() == 6 + tail.len()
            &&& s[0] == '\\'
            &&& s[1] == 'u'
            &&& code_point(s[2], s[3], s[4], s[5]) == Some(point)
            &&& s.skip(6) == tail
        }),
{
    let code = unit_escape(point);
    let s = code + tail;
    lemma_unit_escape_value(point);
    assert(s.skip(6) =~= tail);
    assert(s[2] == code[2] && s[3] == code[3] && s[4] == code[4] && s[5] == code[5]);
}

proof fn lemma_unit_is_read(point: int, tail: Seq<char>)
    requires
        0 <= point < 0xd800 || 0xe000 <= point < 0x10000,
    ensures
        read_json(unit_escape(point) + tail) == in_front(point as char, read_json(tail)),
{
    lemma_unit_front(point, tail);
    assert(json_code('u') is None);
}

proof fn lemma_pair_is_read(high: int, low: int, tail: Seq<char>)
    requires
        0xd800 <= high < 0xdc00,
        0xdc00 <= low < 0xe000,
    ensures
        read_json(unit_escape(high) + (unit_escape(low) + tail)) == in_front(
            pair_point(high, low) as char,
            read_json(tail),
        ),
{
    let second = unit_escape(low) + tail;
    let s = unit_escape(high) + second;
    lemma_unit_front(high, second);
    lemma_unit_front(low, tail);
    assert(s[6] == second[0] && s[7] == second[1] && s[8] == second[2] && s[9] == second[3]
        && s[10] == second[4] && s[11] == second[5]);
    assert(s.skip(12) =~= tail);
    assert(json_code('u') is None);
    assert(leading_pair(s) == Some(pair_point(high, low)));
}

proof fn lemma_half_is_none(half: int, tail: Seq<char>)
    requires
        0xd800 <= half < 0xe000,
        tail.len() == 0 || tail[0] != '\\',
    ensures
        read_json(unit_escape(half) + tail) is None,
{
    let s = unit_escape(half) + tail;
    lemma_unit_front(half, tail);
    assert(json_code('u') is None);
    if s.len() >= 12 {
        assert(s[6] == tail[0]);
    }
    assert(leading_pair(s) is None);
}

/// A text without a closing quote is none.
pub proof fn lemma_unfinished_text_is_none(s: Seq<char>)
    requires
        !s.contains('"'),
    ensures
        read_json(s) is None,
    decreases s.len(),
{
    if s.len() > 0 {
        assert(s[0] != '"');
        lemma_no_quote_behind(s, 1);
        lemma_unfinished_text_is_none(s.skip(1));
        if s.len() >= 2 {
            lemma_no_quote_behind(s, 2);
            lemma_unfinished_text_is_none(s.skip(2));
        }
        if s.len() >= 6 {
            lemma_no_quote_behind(s, 6);
            lemma_unfinished_text_is_none(s.skip(6));
        }
        if s.len() >= 12 {
            lemma_no_quote_behind(s, 12);
            lemma_unfinished_text_is_none(s.skip(12));
        }
    }
}

proof fn lemma_no_quote_behind(s: Seq<char>, n: int)
    requires
        !s.contains('"'),
        0 <= n <= s.len(),
    ensures
        !s.skip(n).contains('"'),
{
    if s.skip(n).contains('"') {
        let i = choose|i: int| 0 <= i < s.skip(n).len() && s.skip(n)[i] == '"';
        assert(s[n + i] == '"');
    }
}

} // verus!
