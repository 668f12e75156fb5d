//! The blob format in which plugins hand records to the host.
//!
//! A blob is a text of lines. Each line is one record and ends with a line
//! feed; its fields are separated by tabs and escaped, so that no field can
//! end its own field or line.
use vstd::prelude::*;

use crate::escape::{escape_harness_field, unescape_harness_field};
use crate::text::chars_of;

verus! {

/// The pieces of `s` between the separators. There is always one more piece
/// than there are separators.
pub open spec fn split(s: Seq<char>, sep: char) -> Seq<Seq<char>>
    decreases s.len(),
{
    if s.len() == 0 {
        seq![Seq::empty()]
    } else {
        let head = split(s.drop_last(), sep);
        if s.last() == sep {
            head.push(Seq::empty())
        } else {
            head.drop_last().push(head.last().push(s.last()))
        }
    }
}

/// The pieces with a separator between each two.
pub open spec fn join(parts: Seq<Seq<char>>, sep: char) -> Seq<char>
    decreases parts.len(),
{
    if parts.len() == 0 {
        Seq::empty()
    } else if parts.len() == 1 {
        parts[0]
    } else {
        join(parts.drop_last(), sep) + seq![sep] + parts.last()
    }
}

/// The lines of a blob. Text behind the last line feed is a line too, unless
/// it is empty.
pub open spec fn lines(blob: Seq<char>) -> Seq<Seq<char>> {
    let pieces = split(blob, '\n');
    if pieces.last().len() == 0 {
        pieces.drop_last()
    } else {
        pieces
    }
}

/// The fields of one line, read back.
pub open spec fn fields_of(line: Seq<char>) -> Seq<Seq<char>> {
    split(line, '\t').map_values(|f: Seq<char>| crate::escape::field_unescaped(f))
}

/// The records of a blob.
pub open spec fn records_of(blob: Seq<char>) -> Seq<Seq<Seq<char>>> {
    lines(blob).map_values(|line: Seq<char>| fields_of(line))
}

/// The line of one record, without its line feed.
pub open spec fn line_of(fields: Seq<Seq<char>>) -> Seq<char> {
    join(fields.map_values(|f: Seq<char>| crate::escape::field_escaped(f)), '\t')
}

/// The text that one record adds to a blob.
pub open spec fn record(fields: Seq<Seq<char>>) -> Seq<char> {
    line_of(fields).push('\n')
}

/// The blob that holds the given records and nothing else.
pub open spec fn blob_of(records: Seq<Seq<Seq<char>>>) -> Seq<char>
    decreases records.len(),
{
    if records.len() == 0 {
        Seq::empty()
    } else {
        blob_of(records.drop_last()) + record(records.last())
    }
}

/// A blob in which every record is finished: it is empty or ends with a line
/// feed.
pub open spec fn complete(blob: Seq<char>) -> bool {
    blob.len() == 0 || blob.last() == '\n'
}

// ---------------------------------------------------------------------
// Reading and writing
// ---------------------------------------------------------------------

/// Cuts `s` at every separator.
pub fn split_on(s: &str, sep: char) -> (pieces: Vec<String>)
    ensures
        pieces.deep_view() == split(s@, sep),
        pieces@.len() > 0,
{
    let chars = chars_of(s);
    let mut pieces: Vec<String> = Vec::new();
    let mut current = String::new();
    let mut i: usize = 0;
    assert(pieces.deep_view().push(current@) =~= split(chars@.take(0), sep));
    while i < chars.len()
        invariant
            i <= chars@.len(),
            pieces.deep_view().push(current@) == split(chars@.take(i as int), sep),
        decreases chars@.len() - i,
    {
        let ghost head = split(chars@.take(i as int), sep);
        let ghost before = pieces.deep_view();
        assert(chars@.take(i + 1).drop_last() =~= chars@.take(i as int));
        assert(head.drop_last() =~= before);
        if chars[i] == sep {
            pieces.push(current);
            assert(pieces.deep_view() =~= head);
            current = String::new();
        } else {
            current.push(chars[i]);
        }
        i = i + 1;
    }
    assert(chars@.take(i as int) =~= chars@);
    let ghost before = pieces.deep_view();
    let ghost last = current@;
    pieces.push(current);
    assert(pieces.deep_view() =~= before.push(last));
    pieces
}

/// The lines of a blob.
pub fn lines_in(blob: &str) -> (out: Vec<String>)
    ensures
        out.deep_view() == lines(blob@),
{
    let mut pieces = split_on(blob, '\n');
    let ghost all = pieces.deep_view();
    let last = pieces.len() - 1;
    assert(all.last() == pieces@[last as int]@);
    if pieces[last].as_str().is_empty() {
        pieces.truncate(last);
        assert(pieces.deep_view() =~= all.drop_last());
    }
    pieces
}

/// The fields of one line, unescaped.
pub fn fields_in(line: &str) -> (out: Vec<String>)
    ensures
        out.deep_view() == fields_of(line@),
        out@.len() > 0,
{
    let pieces = split_on(line, '\t');
    let mut out: Vec<String> = Vec::new();
    let mut i: usize = 0;
    while i < pieces.len()
        invariant
            i <= pieces@.len(),
            out@.len() == i,
            pieces.deep_view() == split(line@, '\t'),
            forall|j: int|
                0 <= j < i ==> (#[trigger] out@[j])@ == crate::escape::field_unescaped(
                    pieces@[j]@,
                ),
        decreases pieces@.len() - i,
    {
        out.push(unescape_harness_field(pieces[i].as_str()));
        i = i + 1;
    }
    assert(forall|j: int| 0 <= j < i ==> pieces.deep_view()[j] == pieces@[j]@);
    assert(out.deep_view() =~= fields_of(line@));
    out
}

/// Reads the records of a blob.
pub fn records_in(blob: &str) -> (out: Vec<Vec<String>>)
    ensures
        out.deep_view() == records_of(blob@),
        forall|i: int| 0 <= i < out@.len() ==> (#[trigger] out@[i])@.len() > 0,
{
    let rows = lines_in(blob);
    let mut out: Vec<Vec<String>> = Vec::new();
    let mut i: usize = 0;
    while i < rows.len()
        invariant
            i <= rows@.len(),
            out@.len() == i,
            rows.deep_view() == lines(blob@),
            forall|j: int|
                0 <= j < i ==> (#[trigger] out@[j]).deep_view() == fields_of(rows@[j]@)
                    && out@[j]@.len() > 0,
        decreases rows@.len() - i,
    {
        out.push(fields_in(rows[i].as_str()));
        i = i + 1;
    }
    assert(forall|j: int| 0 <= j < i ==> rows.deep_view()[j] == rows@[j]@);
    assert(out.deep_view() =~= records_of(blob@));
    out
}

/// Appends one record to a blob.
pub fn push_record(blob: &mut String, fields: &Vec<String>)
    requires
        fields@.len() > 0,
    ensures
        final(blob)@ == old(blob)@ + record(fields.deep_view()),
{
    let ghost escaped = fields.deep_view().map_values(
        |f: Seq<char>| crate::escape::field_escaped(f),
    );
    let first = escape_harness_field(fields[0].as_str());
    blob.append(first.as_str());
    let mut i: usize = 1;
    assert(escaped.take(1).len() == 1);
    assert(fields.deep_view()[0] == fields@[0]@);
    assert(blob@ =~= old(blob)@ + join(escaped.take(1), '\t'));
    while i < fields.len()
        invariant
            1 <= i <= fields@.len(),
            escaped == fields.deep_view().map_values(
                |f: Seq<char>| crate::escape::field_escaped(f),
            ),
            blob@ == old(blob)@ + join(escaped.take(i as int), '\t'),
        decreases fields@.len() - i,
    {
        let next = escape_harness_field(fields[i].as_str());
        blob.push('\t');
        blob.append(next.as_str());
        assert(fields.deep_view()[i as int] == fields@[i as int]@);
        assert(escaped.take(i + 1).drop_last() =~= escaped.take(i as int));
        assert(escaped.take(i + 1).last() == next@);
        assert(blob@ =~= old(blob)@ + join(escaped.take(i + 1), '\t'));
        i = i + 1;
    }
    assert(escaped.take(i as int) =~= escaped);
    blob.push('\n');
    assert(blob@ =~= old(blob)@ + record(fields.deep_view()));
}

/// Appends a record of one field.
pub fn push_one(blob: &mut String, a: &str)
    ensures
        final(blob)@ == old(blob)@ + record(seq![a@]),
{
    let mut fields: Vec<String> = Vec::new();
    fields.push(a.to_owned());
    assert(fields.deep_view() =~= seq![a@]);
    push_record(blob, &fields);
}

/// Appends a record of two fields.
pub fn push_pair(blob: &mut String, a: &str, b: &str)
    ensures
        final(blob)@ == old(blob)@ + record(seq![a@, b@]),
{
    let mut fields: Vec<String> = Vec::new();
    fields.push(a.to_owned());
    fields.push(b.to_owned());
    assert(fields.deep_view() =~= seq![a@, b@]);
    push_record(blob, &fields);
}

/// Appends a record of three fields.
pub fn push_triple(blob: &mut String, a: &str, b: &str, c: &str)
    ensures
        final(blob)@ == old(blob)@ + record(seq![a@, b@, c@]),
{
    let mut fields: Vec<String> = Vec::new();
    fields.push(a.to_owned());
    fields.push(b.to_owned());
    fields.push(c.to_owned());
    assert(fields.deep_view() =~= seq![a@, b@, c@]);
    push_record(blob, &fields);
}

// ---------------------------------------------------------------------
// Laws
// ---------------------------------------------------------------------

proof fn lemma_split_nonempty(s: Seq<char>, sep: char)
    ensures
        split(s, sep).len() > 0,
    decreases s.len(),
{
    if s.len() > 0 {
        lemma_split_nonempty(s.drop_last(), sep);
    }
}

proof fn lemma_split_at_separator(a: Seq<char>, b: Seq<char>, sep: char)
    ensures
        split(a + seq![sep] + b, sep) == split(a, sep) + split(b, sep),
    decreases b.len(),
{
    let whole = a + seq![sep] + b;
    lemma_split_nonempty(b, sep);
    if b.len() == 0 {
        assert(whole.drop_last() =~= a);
        assert(split(whole, sep) =~= split(a, sep) + split(b, sep));
    } else {
        lemma_split_at_separator(a, b.drop_last(), sep);
        lemma_split_nonempty(b.drop_last(), sep);
        assert(whole.drop_last() =~= a + seq![sep] + b.drop_last());
        assert(split(whole, sep) =~= split(a, sep) + split(b, sep));
    }
}

proof fn lemma_split_without_separator(s: Seq<char>, sep: char)
    requires
        !s.contains(sep),
    ensures
        split(s, sep) == seq![s],
    decreases s.len(),
{
    if s.len() > 0 {
        assert(s.contains(s.last()));
        assert forall|c: char| s.drop_last().contains(c) implies s.contains(c) by {
            let i = s.drop_last().index_of(c);
            assert(s[i] == c);
        }
        lemma_split_without_separator(s.drop_last(), sep);
        assert(s.drop_last().push(s.last()) =~= s);
        assert(split(s, sep) =~= seq![s]);
    } else {
        assert(s =~= Seq::empty());
    }
}

proof fn lemma_split_of_join(parts: Seq<Seq<char>>, sep: char)
    requires
        parts.len() > 0,
        forall|i: int| 0 <= i < parts.len() ==> !(#[trigger] parts[i]).contains(sep),
    ensures
        split(join(parts, sep), sep) == parts,
    decreases parts.len(),
{
    lemma_split_without_separator(parts.last(), sep);
    if parts.len() == 1 {
        assert(parts =~= seq![parts[0]]);
    } else {
        assert forall|i: int| 0 <= i < parts.drop_last().len() implies !(
        #[trigger] parts.drop_last()[i]).contains(sep) by {
            assert(parts.drop_last()[i] == parts[i]);
        }
        lemma_split_of_join(parts.drop_last(), sep);
        lemma_split_at_separator(join(parts.drop_last(), sep), parts.last(), sep);
        assert(parts.drop_last() + seq![parts.last()] =~= parts);
    }
}

proof fn lemma_join_without(parts: Seq<Seq<char>>, sep: char, c: char)
    requires
        c != sep,
        forall|i: int| 0 <= i < parts.len() ==> !(#[trigger] parts[i]).contains(c),
    ensures
        !join(parts, sep).contains(c),
    decreases parts.len(),
{
    if parts.len() > 1 {
        assert forall|i: int| 0 <= i < parts.drop_last().len() implies !(
        #[trigger] parts.drop_last()[i]).contains(c) by {
            assert(parts.drop_last()[i] == parts[i]);
        }
        lemma_join_without(parts.drop_last(), sep, c);
        let head = join(parts.drop_last(), sep);
        let whole = join(parts, sep);
        assert forall|i: int| 0 <= i < whole.len() implies whole[i] != c by {
            if i < head.len() {
                assert(head.contains(head[i]));
            } else if i > head.len() {
                assert(parts.last().contains(parts.last()[i - head.len() - 1]));
            }
        }
    }
}

/// A line added behind a complete blob is one more line, and the lines before
/// it stay as they were.
pub proof fn lemma_line_appended(blob: Seq<char>, line: Seq<char>)
    requires
        complete(blob),
        !line.contains('\n'),
    ensures
        lines(blob + line.push('\n')) == lines(blob).push(line),
{
    let tail = line.push('\n');
    assert(tail =~= line + seq!['\n'] + Seq::empty());
    lemma_split_at_separator(line, Seq::empty(), '\n');
    lemma_split_without_separator(line, '\n');
    assert(split(tail, '\n') =~= seq![line, Seq::empty()]);
    if blob.len() == 0 {
        assert(blob + tail =~= tail);
        assert(lines(blob) =~= Seq::empty());
        assert(lines(blob + tail) =~= lines(blob).push(line));
    } else {
        let head = blob.drop_last();
        assert(blob =~= head + seq!['\n'] + Seq::empty());
        assert(blob + tail =~= head + seq!['\n'] + tail);
        lemma_split_at_separator(head, Seq::empty(), '\n');
        lemma_split_at_separator(head, tail, '\n');
        assert(lines(blob) =~= split(head, '\n'));
        assert(lines(blob + tail) =~= lines(blob).push(line));
    }
}

/// The line of a record holds no line feed, and its fields read back as they
/// were written.
pub proof fn lemma_line_round_trip(fields: Seq<Seq<char>>)
    requires
        fields.len() > 0,
    ensures
        !line_of(fields).contains('\n'),
        fields_of(line_of(fields)) == fields,
{
    let escaped = fields.map_values(|f: Seq<char>| crate::escape::field_escaped(f));
    assert forall|i: int| 0 <= i < escaped.len() implies !(#[trigger] escaped[i]).contains('\t')
        && !escaped[i].contains('\n') by {
        crate::escape::lemma_field_has_no_separator(fields[i]);
    }
    lemma_join_without(escaped, '\t', '\n');
    lemma_split_of_join(escaped, '\t');
    assert forall|i: int| 0 <= i < fields.len() implies fields_of(line_of(fields))[i]
        == fields[i] by {
        crate::escape::lemma_field_round_trip(fields[i]);
    }
    assert(fields_of(line_of(fields)) =~= fields);
}

/// Whatever its fields hold, a record that is appended to a complete blob adds
/// exactly that one record: it cannot start a second record, nor change one
/// that stands before it.
pub proof fn lemma_record_appended(blob: Seq<char>, fields: Seq<Seq<char>>)
    requires
        complete(blob),
        fields.len() > 0,
    ensures
        records_of(blob + record(fields)) == records_of(blob).push(fields),
        complete(blob + record(fields)),
{
    lemma_line_round_trip(fields);
    lemma_line_appended(blob, line_of(fields));
    assert(records_of(blob + record(fields)) =~= records_of(blob).push(fields));
}

/// A blob is complete after a record, whatever stood in it before.
pub broadcast proof fn lemma_record_completes(blob: Seq<char>, fields: Seq<Seq<char>>)
    ensures
        complete(#[trigger] (blob + record(fields))),
{
    assert((blob + record(fields)).last() == '\n');
}

/// Records that are written to a blob read back unchanged, in order.
pub proof fn lemma_blob_round_trip(records: Seq<Seq<Seq<char>>>)
    requires
        forall|i: int| 0 <= i < records.len() ==> (#[trigger] records[i]).len() > 0,
    ensures
        records_of(blob_of(records)) == records,
        complete(blob_of(records)),
    decreases records.len(),
{
    if records.len() == 0 {
        assert(lines(Seq::<char>::empty()) =~= Seq::empty());
        assert(records_of(blob_of(records)) =~= records);
    } else {
        assert forall|i: int| 0 <= i < records.drop_last().len() implies (
        #[trigger] records.drop_last()[i]).len() > 0 by {
            assert(records.drop_last()[i] == records[i]);
        }
        lemma_blob_round_trip(records.drop_last());
        lemma_record_appended(blob_of(records.drop_last()), records.last());
        assert(records.drop_last().push(records.last()) =~= records);
    }
}

/// An empty blob holds no record.
pub proof fn lemma_empty_blob()
    ensures
        records_of(Seq::<char>::empty()) == Seq::<Seq<Seq<char>>>::empty(),
{
    assert(lines(Seq::<char>::empty()) =~= Seq::empty());
    assert(records_of(Seq::<char>::empty()) =~= Seq::empty());
}

// ---------------------------------------------------------------------
// Pieces, lines and fields of any text
// ---------------------------------------------------------------------

/// The pieces of a text hold no separator, and make up the text again with one
/// between each two, so that nothing of it is lost.
pub proof fn lemma_split_loses_nothing(s: Seq<char>, sep: char)
    ensures
        split(s, sep).len() > 0,
        join(split(s, sep), sep) == s,
        forall|i: int| 0 <= i < split(s, sep).len() ==> !(#[trigger] split(s, sep)[i]).contains(sep),
    decreases s.len(),
{
    lemma_split_nonempty(s, sep);
    if s.len() == 0 {
        assert(s =~= Seq::empty());
    } else {
        let c = s.last();
        let head = split(s.drop_last(), sep);
        let pieces = split(s, sep);
        lemma_split_loses_nothing(s.drop_last(), sep);
        assert(s =~= s.drop_last().push(c));
        if c == sep {
            assert(pieces.drop_last() =~= head);
            assert(join(pieces, sep) =~= s);
        } else {
            assert(pieces.drop_last() =~= head.drop_last());
            assert(pieces.last() == head.last().push(c));
            assert(join(pieces, sep) =~= s);
        }
        assert forall|i: int| 0 <= i < pieces.len() implies !(#[trigger] pieces[i]).contains(
            sep,
        ) by {
            if c == sep {
                if i < head.len() {
                    assert(pieces[i] == head[i]);
                }
            } else if i < head.len() - 1 {
                assert(pieces[i] == head[i]);
            } else {
                let last = head[head.len() - 1];
                assert(!last.contains(sep));
                assert(pieces[i] == last.push(c));
                if pieces[i].contains(sep) {
                    let j = choose|j: int| 0 <= j < pieces[i].len() && pieces[i][j] == sep;
                    assert(last[j] == sep);
                }
            }
        }
    }
}

/// A text behind the last line feed is a line as well, though nothing ends it.
pub proof fn lemma_unfinished_line_counts(blob: Seq<char>, line: Seq<char>)
    requires
        complete(blob),
        !line.contains('\n'),
        line.len() > 0,
    ensures
        lines(blob + line) == lines(blob).push(line),
{
    lemma_split_without_separator(line, '\n');
    if blob.len() == 0 {
        assert(blob + line =~= line);
        assert(lines(blob) =~= Seq::empty());
        assert(lines(blob + line) =~= lines(blob).push(line));
    } else {
        let head = blob.drop_last();
        assert(blob =~= head + seq!['\n'] + Seq::empty());
        assert(blob + line =~= head + seq!['\n'] + line);
        lemma_split_at_separator(head, Seq::empty(), '\n');
        lemma_split_at_separator(head, line, '\n');
        assert(lines(blob) =~= split(head, '\n'));
        assert(lines(blob + line) =~= lines(blob).push(line));
    }
}

/// A tab parts the fields of a line, and a field without one is read as it
/// stands there, but for its escapes.
pub proof fn lemma_tabs_part_fields(field: Seq<char>, rest: Seq<char>)
    requires
        !field.contains('\t'),
    ensures
        fields_of(field) == seq![crate::escape::field_unescaped(field)],
        fields_of(field + seq!['\t'] + rest) == seq![crate::escape::field_unescaped(field)]
            + fields_of(rest),
{
    lemma_split_without_separator(field, '\t');
    lemma_split_at_separator(field, rest, '\t');
    assert(fields_of(field) =~= seq![crate::escape::field_unescaped(field)]);
    assert(fields_of(field + seq!['\t'] + rest) =~= seq![crate::escape::field_unescaped(field)]
        + fields_of(rest));
}

/// A record is written field by field, each escaped, with a tab before each but
/// the first, and a line feed at its end.
pub proof fn lemma_record_is_written_in_order(fields: Seq<Seq<char>>, field: Seq<char>)
    ensures
        record(seq![field]) == crate::escape::field_escaped(field) + seq!['\n'],
        fields.len() > 0 ==> record(fields.push(field)) == record(fields).drop_last() + seq!['\t']
            + crate::escape::field_escaped(field) + seq!['\n'],
{
    let one = seq![field].map_values(|f: Seq<char>| crate::escape::field_escaped(f));
    assert(one.len() == 1);
    assert(record(seq![field]) =~= crate::escape::field_escaped(field) + seq!['\n']);
    if fields.len() > 0 {
        let before = fields.map_values(|f: Seq<char>| crate::escape::field_escaped(f));
        let after = fields.push(field).map_values(|f: Seq<char>| crate::escape::field_escaped(f));
        assert(after.drop_last() =~= before);
        assert(after.last() == crate::escape::field_escaped(field));
        assert(record(fields.push(field)) =~= record(fields).drop_last() + seq!['\t']
            + crate::escape::field_escaped(field) + seq!['\n']);
    }
}

/// A line that plugin code wrote by hand is a record of its fields, behind those
/// that stand before it, whether a line feed ends it or not.
pub proof fn lemma_written_line_is_a_record(blob: Seq<char>, line: Seq<char>)
    requires
        complete(blob),
        !line.contains('\n'),
        line.len() > 0,
    ensures
        records_of(blob + line.push('\n')) == records_of(blob).push(fields_of(line)),
        records_of(blob + line) == records_of(blob).push(fields_of(line)),
{
    lemma_line_appended(blob, line);
    lemma_unfinished_line_counts(blob, line);
    assert(records_of(blob + line.push('\n')) =~= records_of(blob).push(fields_of(line)));
    assert(records_of(blob + line) =~= records_of(blob).push(fields_of(line)));
}

} // verus!
