//! Typed records: what a row of a blob means to its reader.
use vstd::prelude::*;

use crate::wire::records_in;

verus! {

/// A value that is read from one record of a blob.
pub trait Row: DeepView + Sized {
    /// The value that the fields stand for, or `None` for a record that the
    /// reader skips.
    spec fn row_value(row: Seq<Seq<char>>) -> Option<Self::V>;

    /// Reads one record.
    fn read_row(row: &Vec<String>) -> (out: Option<Self>)
        requires
            row@.len() > 0,
        ensures
            out.deep_view() == Self::row_value(row.deep_view()),
    ;
}

/// The values in a blob, in order.
pub open spec fn rows<T: Row>(blob: Seq<char>) -> Seq<T::V> {
    crate::wire::records_of(blob).filter_map(|row: Seq<Seq<char>>| T::row_value(row))
}

/// Reads the values of a blob.
pub fn read_rows<T: Row>(blob: &str) -> (out: Vec<T>)
    ensures
        out.deep_view() == rows::<T>(blob@),
{
    let records = records_in(blob);
    let ghost all = records.deep_view();
    let ghost read = |row: Seq<Seq<char>>| T::row_value(row);
    let mut out: Vec<T> = Vec::new();
    let mut i: usize = 0;
    assert(all.take(0) =~= Seq::empty());
    assert(out.deep_view() =~= all.take(0).filter_map(read));
    while i < records.len()
        invariant
            i <= records@.len(),
            all == records.deep_view(),
            read == (|row: Seq<Seq<char>>| T::row_value(row)),
            out.deep_view() == all.take(i as int).filter_map(read),
            forall|j: int| 0 <= j < records@.len() ==> (#[trigger] records@[j])@.len() > 0,
        decreases records@.len() - i,
    {
        let ghost before = out.deep_view();
        assert(all.take(i + 1).drop_last() =~= all.take(i as int));
        assert(all.take(i + 1).last() == records@[i as int].deep_view());
        if let Some(value) = T::read_row(&records[i]) {
            let ghost seen = value.deep_view();
            out.push(value);
            assert(out.deep_view() =~= before + seq![seen]);
        }
        i = i + 1;
    }
    assert(all.take(i as int) =~= all);
    out
}

/// Reads the values of a blob and empties it.
pub fn drain_rows<T: Row>(blob: &mut String) -> (out: Vec<T>)
    ensures
        out.deep_view() == rows::<T>(old(blob)@),
        final(blob)@ == Seq::<char>::empty(),
{
    let out = read_rows::<T>(blob.as_str());
    *blob = String::new();
    out
}

/// A record appended to a complete blob is read as one more value behind those
/// that were there, or, where its reader skips it, as none.
pub proof fn lemma_row_appended<T: Row>(blob: Seq<char>, fields: Seq<Seq<char>>)
    requires
        crate::wire::complete(blob),
        fields.len() > 0,
    ensures
        crate::wire::complete(blob + crate::wire::record(fields)),
        rows::<T>(blob + crate::wire::record(fields)) == (match T::row_value(fields) {
            Some(value) => rows::<T>(blob).push(value),
            None => rows::<T>(blob),
        }),
{
    crate::wire::lemma_record_appended(blob, fields);
    let before = crate::wire::records_of(blob);
    let after = crate::wire::records_of(blob + crate::wire::record(fields));
    assert(after.drop_last() =~= before);
    if let Some(value) = T::row_value(fields) {
        assert(rows::<T>(blob + crate::wire::record(fields)) =~= rows::<T>(blob).push(value));
    }
}

/// An empty blob holds no value.
pub proof fn lemma_no_rows<T: Row>()
    ensures
        rows::<T>(Seq::empty()) == Seq::<T::V>::empty(),
{
    crate::wire::lemma_empty_blob();
}

/// The fields from `from` on, with tabs between them.
pub open spec fn rest_of_row(row: Seq<Seq<char>>, from: int) -> Seq<char> {
    crate::wire::join(row.skip(from), '\t')
}

/// Joins the fields from `from` on.
pub fn rest_text(row: &Vec<String>, from: usize) -> (out: String)
    requires
        from < row@.len(),
    ensures
        out@ == rest_of_row(row.deep_view(), from as int),
{
    let ghost parts = row.deep_view().skip(from as int);
    let total: usize = row.len();
    let mut out = row[from].clone();
    let mut i: usize = from + 1;
    assert(parts.take(1).len() == 1);
    assert(parts[0] == row@[from as int]@);
    while i < total
        invariant
            from < i <= total,
            total == row@.len(),
            parts == row.deep_view().skip(from as int),
            out@ == crate::wire::join(parts.take(i - from), '\t'),
        decreases total - i,
    {
        out.push('\t');
        out.append(row[i].as_str());
        assert(parts.take(i + 1 - from).drop_last() =~= parts.take(i - from));
        assert(parts.take(i + 1 - from).last() == row@[i as int]@);
        assert(out@ =~= crate::wire::join(parts.take(i + 1 - from), '\t'));
        i = i + 1;
    }
    assert(parts.take(i - from) =~= parts);
    out
}

/// A line that is one text.
impl Row for String {
    open spec fn row_value(row: Seq<Seq<char>>) -> Option<Seq<char>> {
        Some(rest_of_row(row, 0))
    }

    fn read_row(row: &Vec<String>) -> (out: Option<Self>) {
        Some(rest_text(row, 0))
    }
}

/// A line of a first column and a text.
impl Row for (String, String) {
    open spec fn row_value(row: Seq<Seq<char>>) -> Option<(Seq<char>, Seq<char>)> {
        if row.len() < 2 {
            None
        } else {
            Some((row[0], rest_of_row(row, 1)))
        }
    }

    fn read_row(row: &Vec<String>) -> (out: Option<Self>) {
        if row.len() < 2 {
            None
        } else {
            Some((row[0].clone(), rest_text(row, 1)))
        }
    }
}

/// Whether the column at `i` leaves a flag on, as it does unless it says
/// `false`.
pub open spec fn flag_at(row: Seq<Seq<char>>, i: int) -> bool {
    !(i < row.len() && row[i] == "false"@)
}

/// Reads a flag column.
pub fn read_flag(row: &Vec<String>, i: usize) -> (on: bool)
    ensures
        on == flag_at(row.deep_view(), i as int),
{
    !(i < row.len() && crate::text::same_text(row[i].as_str(), "false"))
}

/// The column that a flag is written to.
pub open spec fn flag_text(on: bool) -> Seq<char> {
    if on {
        "true"@
    } else {
        "false"@
    }
}

/// Writes a flag column.
pub fn write_flag(on: bool) -> (out: String)
    ensures
        out@ == flag_text(on),
{
    if on {
        "true".to_owned()
    } else {
        "false".to_owned()
    }
}

/// A written flag reads back.
pub proof fn lemma_flag_round_trip(on: bool)
    ensures
        flag_text(on) == "false"@ <==> !on,
{
    reveal_strlit("true");
    reveal_strlit("false");
    assert("true"@.len() == 4);
    assert("false"@.len() == 5);
}

/// The text at `i`, or `None` where the column is missing or empty.
pub open spec fn optional_at(row: Seq<Seq<char>>, i: int) -> Option<Seq<char>> {
    if i < row.len() && row[i].len() > 0 {
        Some(row[i])
    } else {
        None
    }
}

/// Reads an optional column.
pub fn read_optional(row: &Vec<String>, i: usize) -> (out: Option<String>)
    ensures
        out.deep_view() == optional_at(row.deep_view(), i as int),
{
    if i < row.len() && !row[i].as_str().is_empty() {
        Some(row[i].clone())
    } else {
        None
    }
}

/// A line of one text is that text, and a line of two has both, also where the
/// second one holds tabs.
pub proof fn lemma_plain_rows(a: Seq<char>, b: Seq<char>, c: Seq<char>)
    ensures
        String::row_value(seq![a]) == Some(a),
        <(String, String)>::row_value(seq![a, b]) == Some((a, b)),
        <(String, String)>::row_value(seq![a]) is None,
        String::row_value(seq![a, b]) == Some(a + seq!['\t'] + b),
        <(String, String)>::row_value(seq![a, b, c]) == Some((a, b + seq!['\t'] + c)),
{
    assert(seq![a].skip(0) =~= seq![a]);
    assert(seq![a, b].skip(1) =~= seq![b]);
    assert(seq![a, b].skip(0) =~= seq![a, b]);
    assert(seq![a, b].drop_last() =~= seq![a]);
    assert(seq![a, b, c].skip(1) =~= seq![b, c]);
    assert(seq![b, c].drop_last() =~= seq![b]);
    reveal_with_fuel(crate::wire::join, 2);
}

/// A flag is off where its column says `false`, and on where it says anything
/// else or is missing. An optional text is there where its column is not empty.
pub proof fn lemma_columns_say_what_they_hold(row: Seq<Seq<char>>, text: Seq<char>)
    ensures
        flag_at(row.push(text), row.len() as int) <==> text != "false"@,
        flag_at(row, row.len() as int),
        optional_at(row, row.len() as int) is None,
        text.len() > 0 ==> optional_at(row.push(text), row.len() as int) == Some(text),
        text.len() == 0 ==> optional_at(row.push(text), row.len() as int) is None,
{
}

/// The values of a blob are those of its records, in order: one more record at
/// its end is at most one more value at theirs.
pub proof fn lemma_rows_of_records<T: Row>(
    records: Seq<Seq<Seq<char>>>,
    fields: Seq<Seq<char>>,
)
    requires
        forall|i: int| 0 <= i < records.len() ==> (#[trigger] records[i]).len() > 0,
        fields.len() > 0,
    ensures
        rows::<T>(crate::wire::blob_of(records.push(fields))) == (match T::row_value(fields) {
            Some(value) => rows::<T>(crate::wire::blob_of(records)).push(value),
            None => rows::<T>(crate::wire::blob_of(records)),
        }),
{
    crate::wire::lemma_blob_round_trip(records);
    assert(records.push(fields).drop_last() =~= records);
    lemma_row_appended::<T>(crate::wire::blob_of(records), fields);
}

} // verus!
