//! The two escapings of the plugin host.
//!
//! A *field* escape keeps a text on one line and inside one column of the
//! harness blobs. A *literal* escape writes a text as the inside of a Janet
//! string literal, so that it can be spliced into source code.
use vstd::prelude::*;

use crate::text::{chars_of, digit_char};

verus! {

// ---------------------------------------------------------------------
// Fields
// ---------------------------------------------------------------------

/// What one character becomes inside a blob field.
pub open spec fn field_char(c: char) -> Seq<char> {
    if c == '\\' {
        seq!['\\', '\\']
    } else if c == '\t' {
        seq!['\\', 't']
    } else if c == '\n' {
        seq!['\\', 'n']
    } else {
        seq![c]
    }
}

/// The escaped form of a field: every character replaced on its own.
pub open spec fn field_escaped(s: Seq<char>) -> Seq<char>
    decreases s.len(),
{
    if s.len() == 0 {
        Seq::empty()
    } else {
        field_escaped(s.drop_last()) + field_char(s.last())
    }
}

/// The character that `\` followed by `c` stands for in a field.
pub open spec fn field_code(c: char) -> Option<char> {
    if c == '\\' {
        Some('\\')
    } else if c == 't' {
        Some('\t')
    } else if c == 'n' {
        Some('\n')
    } else {
        None
    }
}

/// The text that an escaped field stands for. A backslash that starts no
/// known escape stands for itself.
pub open spec fn field_unescaped(s: Seq<char>) -> Seq<char>
    decreases s.len(),
{
    if s.len() == 0 {
        Seq::empty()
    } else if s[0] == '\\' && s.len() >= 2 && field_code(s[1]) is Some {
        seq![field_code(s[1])->0] + field_unescaped(s.skip(2))
    } else {
        seq![s[0]] + field_unescaped(s.skip(1))
    }
}

/// Escapes a text for one field of a harness blob.
pub fn escape_harness_field(s: &str) -> (out: String)
    ensures
        out@ == field_escaped(s@),
{
    let chars = chars_of(s);
    let mut out = String::new();
    let mut i: usize = 0;
    assert(chars@.take(0) =~= Seq::<char>::empty());
    while i < chars.len()
        invariant
            i <= chars@.len(),
            out@ == field_escaped(chars@.take(i as int)),
        decreases chars@.len() - i,
    {
        let c = chars[i];
        let ghost before = out@;
        if c == '\\' {
            out.push('\\');
            out.push('\\');
        } else if c == '\t' {
            out.push('\\');
            out.push('t');
        } else if c == '\n' {
            out.push('\\');
            out.push('n');
        } else {
            out.push(c);
        }
        assert(out@ =~= before + field_char(c));
        assert(chars@.take(i + 1).drop_last() =~= chars@.take(i as int));
        i = i + 1;
    }
    assert(chars@.take(i as int) =~= chars@);
    out
}

/// Reads a field of a harness blob back.
pub fn unescape_harness_field(s: &str) -> (out: String)
    ensures
        out@ == field_unescaped(s@),
{
    let chars = chars_of(s);
    let mut out = String::new();
    let mut i: usize = 0;
    assert(chars@.skip(0) =~= chars@);
    while i < chars.len()
        invariant
            i <= chars@.len(),
            out@ + field_unescaped(chars@.skip(i as int)) == field_unescaped(chars@),
        decreases chars@.len() - i,
    {
        let ghost before = out@;
        let ghost rest = chars@.skip(i as int);
        assert(rest.skip(1) =~= chars@.skip(i + 1));
        if chars[i] == '\\' && i + 1 < chars.len() && (chars[i + 1] == '\\' || chars[i + 1] == 't'
            || chars[i + 1] == 'n') {
            assert(rest.skip(2) =~= chars@.skip(i + 2));
            let c = if chars[i + 1] == 't' {
                '\t'
            } else if chars[i + 1] == 'n' {
                '\n'
            } else {
                '\\'
            };
            out.push(c);
            assert(before.push(c) + field_unescaped(rest.skip(2)) =~= before + (seq![c]
                + field_unescaped(rest.skip(2))));
            i = i + 2;
        } else {
            let c = chars[i];
            out.push(c);
            assert(before.push(c) + field_unescaped(rest.skip(1)) =~= before + (seq![c]
                + field_unescaped(rest.skip(1))));
            i = i + 1;
        }
    }
    assert(out@ + field_unescaped(chars@.skip(i as int)) =~= out@);
    out
}

proof fn lemma_unescape_after_escape(s: Seq<char>, tail: Seq<char>)
    ensures
        field_unescaped(field_escaped(s) + tail) == s + field_unescaped(tail),
    decreases s.len(),
{
    if s.len() == 0 {
        assert(field_escaped(s) + tail =~= tail);
        assert(s + field_unescaped(tail) =~= field_unescaped(tail));
    } else {
        let c = s.last();
        let code = field_char(c);
        lemma_unescape_after_escape(s.drop_last(), code + tail);
        assert(field_escaped(s) + tail =~= field_escaped(s.drop_last()) + (code + tail));
        if code.len() == 2 {
            assert((code + tail).skip(2) =~= tail);
        } else {
            assert((code + tail).skip(1) =~= tail);
        }
        assert(field_unescaped(code + tail) == seq![c] + field_unescaped(tail));
        assert(s.drop_last() + (seq![c] + field_unescaped(tail)) =~= s + field_unescaped(tail));
    }
}

/// A field reads back as the text that was escaped, whatever the text holds.
pub proof fn lemma_field_round_trip(s: Seq<char>)
    ensures
        field_unescaped(field_escaped(s)) == s,
{
    lemma_unescape_after_escape(s, Seq::empty());
    assert(field_escaped(s) + Seq::empty() =~= field_escaped(s));
    assert(s + field_unescaped(Seq::empty()) =~= s);
}

/// An escaped field holds neither of the separators of a blob.
pub proof fn lemma_field_has_no_separator(s: Seq<char>)
    ensures
        !field_escaped(s).contains('\t'),
        !field_escaped(s).contains('\n'),
    decreases s.len(),
{
    if s.len() > 0 {
        lemma_field_has_no_separator(s.drop_last());
        let head = field_escaped(s.drop_last());
        let code = field_char(s.last());
        assert forall|i: int| 0 <= i < (head + code).len() implies (head + code)[i] != '\t' && (head
            + code)[i] != '\n' by {
            if i < head.len() {
                assert(head.contains(head[i]));
            } else {
                assert((head + code)[i] == code[i - head.len()]);
            }
        }
    }
}

// ---------------------------------------------------------------------
// Janet string literals
// ---------------------------------------------------------------------

/// Whether `c` is one of the ASCII control characters.
pub open spec fn is_control(c: char) -> bool {
    (c as int) < 0x20 || c as int == 0x7f
}

/// What one character becomes inside a Janet string literal.
pub open spec fn literal_char(c: char) -> Seq<char> {
    if c == '\\' {
        seq!['\\', '\\']
    } else if c == '"' {
        seq!['\\', '"']
    } else if c == '\n' {
        seq!['\\', 'n']
    } else if c == '\t' {
        seq!['\\', 't']
    } else if c == '\r' {
        seq!['\\', 'r']
    } else if is_control(c) {
        seq!['\\', 'x', crate::text::digit(c as int / 16), crate::text::digit(c as int % 16)]
    } else {
        seq![c]
    }
}

/// The inside of the Janet string literal that stands for `s`.
pub open spec fn literal_escaped(s: Seq<char>) -> Seq<char>
    decreases s.len(),
{
    if s.len() == 0 {
        Seq::empty()
    } else {
        literal_escaped(s.drop_last()) + literal_char(s.last())
    }
}

/// The Janet string literal that stands for `s`, with its quotes.
pub open spec fn literal(s: Seq<char>) -> Seq<char> {
    seq!['"'] + literal_escaped(s) + seq!['"']
}

fn push_literal_char(out: &mut String, c: char)
    ensures
        final(out)@ == old(out)@ + literal_char(c),
{
    if c == '\\' {
        out.push('\\');
        out.push('\\');
    } else if c == '"' {
        out.push('\\');
        out.push('"');
    } else if c == '\n' {
        out.push('\\');
        out.push('n');
    } else if c == '\t' {
        out.push('\\');
        out.push('t');
    } else if c == '\r' {
        out.push('\\');
        out.push('r');
    } else if (c as u32) < 0x20 || c as u32 == 0x7f {
        let code: u32 = c as u32;
        out.push('\\');
        out.push('x');
        out.push(digit_char((code / 16) as u8));
        out.push(digit_char((code % 16) as u8));
    } else {
        out.push(c);
    }
    assert(out@ =~= old(out)@ + literal_char(c));
}

/// Escapes a text for the inside of a Janet string literal.
pub fn escape_janet_string(s: &str) -> (out: String)
    ensures
        out@ == literal_escaped(s@),
{
    let chars = chars_of(s);
    let mut out = String::new();
    let mut i: usize = 0;
    assert(chars@.take(0) =~= Seq::<char>::empty());
    while i < chars.len()
        invariant
            i <= chars@.len(),
            out@ == literal_escaped(chars@.take(i as int)),
        decreases chars@.len() - i,
    {
        push_literal_char(&mut out, chars[i]);
        assert(chars@.take(i + 1).drop_last() =~= chars@.take(i as int));
        i = i + 1;
    }
    assert(chars@.take(i as int) =~= chars@);
    out
}

/// Writes a text as a Janet string literal.
pub fn janet_literal(s: &str) -> (out: String)
    ensures
        out@ == literal(s@),
{
    let mut out = String::new();
    out.push('"');
    let inside = escape_janet_string(s);
    out.append(inside.as_str());
    out.push('"');
    assert(out@ =~= literal(s@));
    out
}

/// The value of a hexadecimal digit.
pub open spec fn hex_value(c: char) -> Option<int> {
    if '0' <= c && c <= '9' {
        Some(c as int - '0' as int)
    } else if 'a' <= c && c <= 'f' {
        Some(c as int - 'a' as int + 10)
    } else if 'A' <= c && c <= 'F' {
        Some(c as int - 'A' as int + 10)
    } else {
        None
    }
}

/// The character that `\` followed by `c` stands for in a Janet string
/// literal, for the escapes of one letter.
pub open spec fn literal_code(c: char) -> Option<char> {
    if c == 'n' {
        Some('\n')
    } else if c == 't' {
        Some('\t')
    } else if c == 'r' {
        Some('\r')
    } else if c == '0' || c == 'z' {
        Some('\0')
    } else if c == 'f' {
        Some('\x0c')
    } else if c == 'v' {
        Some('\x0b')
    } else if c == 'a' {
        Some('\x07')
    } else if c == 'b' {
        Some('\x08')
    } else if c == 'e' {
        Some('\x1b')
    } else if c == '\'' || c == '?' || c == '"' || c == '\\' {
        Some(c)
    } else {
        None
    }
}

/// Reads source text that stands behind the opening quote of a Janet string
/// literal: the text of the literal and the source behind its closing quote.
/// Raw line breaks inside the quotes are skipped, as Janet does. `None` where
/// the literal is malformed, unfinished, or uses an escape for a byte or code
/// point outside ASCII.
pub open spec fn read_literal(s: Seq<char>) -> Option<(Seq<char>, Seq<char>)>
    decreases s.len(),
{
    if s.len() == 0 {
        None
    } else if s[0] == '"' {
        Some((Seq::empty(), s.skip(1)))
    } else if s[0] == '\n' || s[0] == '\r' {
        read_literal(s.skip(1))
    } else if s[0] != '\\' {
        match read_literal(s.skip(1)) {
            Some((text, rest)) => Some((seq![s[0]] + text, rest)),
            None => None,
        }
    } else if s.len() >= 2 && literal_code(s[1]) is Some {
        match read_literal(s.skip(2)) {
            Some((text, rest)) => Some((seq![literal_code(s[1])->0] + text, rest)),
            None => None,
        }
    } else if s.len() >= 4 && s[1] == 'x' && hex_value(s[2]) is Some && hex_value(s[3]) is Some
        && hex_value(s[2])->0 < 8 {
        match read_literal(s.skip(4)) {
            Some((text, rest)) => Some(
                (seq![(hex_value(s[2])->0 * 16 + hex_value(s[3])->0) as char] + text, rest),
            ),
            None => None,
        }
    } else {
        None
    }
}

proof fn lemma_read_after_escaped_char(c: char, tail: Seq<char>)
    ensures
        read_literal(literal_char(c) + tail) == (match read_literal(tail) {
            Some((text, rest)) => Some((seq![c] + text, rest)),
            None => None,
        }),
{
    let code = literal_char(c);
    assert((code + tail).skip(code.len() as int) =~= tail);
    if is_control(c) && c != '\n' && c != '\t' && c != '\r' {
        assert(hex_value(crate::text::digit(c as int / 16)) == Some(c as int / 16));
        assert(hex_value(crate::text::digit(c as int % 16)) == Some(c as int % 16));
        assert((c as int / 16) * 16 + c as int % 16 == c as int);
    }
}

proof fn lemma_read_after_escape(s: Seq<char>, tail: Seq<char>)
    ensures
        read_literal(literal_escaped(s) + tail) == (match read_literal(tail) {
            Some((text, rest)) => Some((s + text, rest)),
            None => None,
        }),
    decreases s.len(),
{
    if s.len() == 0 {
        assert(literal_escaped(s) + tail =~= tail);
        if let Some((text, rest)) = read_literal(tail) {
            assert(s + text =~= text);
        }
    } else {
        let c = s.last();
        let src = literal_char(c) + tail;
        lemma_read_after_escape(s.drop_last(), src);
        lemma_read_after_escaped_char(c, tail);
        assert(literal_escaped(s) + tail =~= literal_escaped(s.drop_last()) + src);
        if let Some((text, rest)) = read_literal(tail) {
            assert(s.drop_last() + (seq![c] + text) =~= s + text);
        }
    }
}

/// A text spliced into source as a literal is read back by Janet as that text,
/// and the literal ends where the splice ends: no text can close its own
/// quotes early or swallow the source behind it.
pub proof fn lemma_literal_round_trip(s: Seq<char>, rest: Seq<char>)
    ensures
        read_literal((literal(s) + rest).skip(1)) == Some((s, rest)),
        literal(s)[0] == '"',
{
    let tail = seq!['"'] + rest;
    assert((literal(s) + rest).skip(1) =~= literal_escaped(s) + tail);
    lemma_read_after_escape(s, tail);
    assert(tail.skip(1) =~= rest);
    assert(s + Seq::<char>::empty() =~= s);
}

// ---------------------------------------------------------------------
// Escapes, character by character
// ---------------------------------------------------------------------

/// Two texts are escaped one behind the other as each is on its own.
pub proof fn lemma_escapes_add_up(a: Seq<char>, b: Seq<char>)
    ensures
        field_escaped(a + b) == field_escaped(a) + field_escaped(b),
        literal_escaped(a + b) == literal_escaped(a) + literal_escaped(b),
    decreases b.len(),
{
    if b.len() == 0 {
        assert(a + b =~= a);
        assert(field_escaped(a) + field_escaped(b) =~= field_escaped(a));
        assert(literal_escaped(a) + literal_escaped(b) =~= literal_escaped(a));
    } else {
        lemma_escapes_add_up(a, b.drop_last());
        assert((a + b).drop_last() =~= a + b.drop_last());
        assert((a + b).last() == b.last());
        assert(field_escaped(a + b) =~= field_escaped(a) + field_escaped(b));
        assert(literal_escaped(a + b) =~= literal_escaped(a) + literal_escaped(b));
    }
}

/// In a field only backslashes, tabs and line feeds are escaped, each with a
/// backslash; all other characters stand for themselves, in whatever text they
/// are.
pub proof fn lemma_field_escapes_three_characters(a: Seq<char>, c: char, b: Seq<char>)
    ensures
        field_escaped(a + seq![c] + b) == field_escaped(a) + (if c == '\t' {
            seq!['\\', 't']
        } else if c == '\n' {
            seq!['\\', 'n']
        } else if c == '\\' {
            seq!['\\', '\\']
        } else {
            seq![c]
        }) + field_escaped(b),
{
    lemma_escapes_add_up(a + seq![c], b);
    lemma_escapes_add_up(a, seq![c]);
    assert(seq![c].drop_last() =~= Seq::empty());
    assert(field_escaped(seq![c]) =~= field_char(c)) by {
        reveal_with_fuel(field_escaped, 2);
    }
}

/// A field is read from its front: the three escapes stand for their
/// characters, and everything else for itself.
pub proof fn lemma_field_is_read_from_its_front(c: char, rest: Seq<char>)
    ensures
        field_unescaped(Seq::empty()) == Seq::<char>::empty(),
        c != '\\' ==> field_unescaped(seq![c] + rest) == seq![c] + field_unescaped(rest),
        field_unescaped(seq!['\\', 't'] + rest) == seq!['\t'] + field_unescaped(rest),
        field_unescaped(seq!['\\', 'n'] + rest) == seq!['\n'] + field_unescaped(rest),
        field_unescaped(seq!['\\', '\\'] + rest) == seq!['\\'] + field_unescaped(rest),
        c != '\\' && c != 't' && c != 'n' ==> field_unescaped(seq!['\\', c] + rest) == seq![
            '\\',
            c,
        ] + field_unescaped(rest),
        field_unescaped(seq!['\\']) == seq!['\\'],
{
    reveal_with_fuel(field_unescaped, 3);
    assert((seq![c] + rest).skip(1) =~= rest);
    assert((seq!['\\', 't'] + rest).skip(2) =~= rest);
    assert((seq!['\\', 'n'] + rest).skip(2) =~= rest);
    assert((seq!['\\', '\\'] + rest).skip(2) =~= rest);
    assert((seq!['\\', c] + rest).skip(1) =~= seq![c] + rest);
    assert(seq!['\\'].skip(1) =~= Seq::empty());
    if c != '\\' && c != 't' && c != 'n' {
        assert(field_unescaped(seq!['\\', c] + rest) =~= seq!['\\', c] + field_unescaped(rest));
    }
    assert(field_unescaped(seq!['\\']) =~= seq!['\\']);
}

/// In a literal every printable character but quotes and backslashes stands for
/// itself, in whatever text it is; the others are escaped, so that a literal
/// holds neither a raw quote nor a control character.
pub proof fn lemma_literal_escapes_only_what_it_must(a: Seq<char>, c: char, b: Seq<char>)
    ensures
        ({
            let code = literal_escaped(seq![c]);
            &&& literal_escaped(a + seq![c] + b) == literal_escaped(a) + code + literal_escaped(b)
            &&& c as int >= 0x20 && c as int != 0x7f && c != '"' && c != '\\' ==> code == seq![c]
            &&& !((c as int) >= 0x20 && c as int != 0x7f && c != '"' && c != '\\') ==> {
                &&& code.len() >= 2
                &&& code[0] == '\\'
                &&& forall|i: int|
                    0 <= i < code.len() ==> (#[trigger] code[i]) as int >= 0x20 && code[i] as int
                        != 0x7f
            }
        }),
{
    lemma_escapes_add_up(a + seq![c], b);
    lemma_escapes_add_up(a, seq![c]);
    assert(seq![c].drop_last() =~= Seq::empty());
    assert(literal_escaped(seq![c]) =~= literal_char(c)) by {
        reveal_with_fuel(literal_escaped, 2);
    }
}

/// A hexadecimal digit has its value in small letters and in capitals, and
/// nothing else has one.
pub proof fn lemma_hexadecimal_digits(c: char)
    ensures
        '0' <= c && c <= '9' ==> hex_value(c) == Some(c as int - 48),
        'a' <= c && c <= 'f' ==> hex_value(c) == Some(c as int - 87),
        'A' <= c && c <= 'F' ==> hex_value(c) == Some(c as int - 55),
        !('0' <= c && c <= '9') && !('a' <= c && c <= 'f') && !('A' <= c && c <= 'F')
            ==> hex_value(c) is None,
{
}

} // verus!
