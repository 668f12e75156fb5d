//! The alphabetical order of texts.
use vstd::prelude::*;

use crate::text::chars_of;

verus! {

/// Whether `a` stands before `b` in the order of their characters, or is `b`.
pub open spec fn text_le(a: Seq<char>, b: Seq<char>) -> bool
    decreases a.len(),
{
    if a.len() == 0 {
        true
    } else if b.len() == 0 {
        false
    } else if a[0] == b[0] {
        text_le(a.drop_first(), b.drop_first())
    } else {
        (a[0] as int) < (b[0] as int)
    }
}

/// Whether every text stands before those that follow it.
pub open spec fn sorted(texts: Seq<Seq<char>>) -> bool {
    forall|i: int, j: int|
        0 <= i < j < texts.len() ==> text_le(#[trigger] texts[i], #[trigger] texts[j])
}

/// Of two texts one stands before the other.
pub proof fn lemma_text_le_total(a: Seq<char>, b: Seq<char>)
    ensures
        text_le(a, b) || text_le(b, a),
    decreases a.len(),
{
    if a.len() > 0 && b.len() > 0 && a[0] == b[0] {
        lemma_text_le_total(a.drop_first(), b.drop_first());
    }
}

/// What stands before a text stands before all that follow it.
pub proof fn lemma_text_le_transitive(a: Seq<char>, b: Seq<char>, c: Seq<char>)
    requires
        text_le(a, b),
        text_le(b, c),
    ensures
        text_le(a, c),
    decreases a.len(),
{
    if a.len() > 0 && b.len() > 0 && c.len() > 0 && a[0] == b[0] && b[0] == c[0] {
        lemma_text_le_transitive(a.drop_first(), b.drop_first(), c.drop_first());
    }
}

/// Two texts that stand before each other are the same.
pub proof fn lemma_text_le_antisymmetric(a: Seq<char>, b: Seq<char>)
    requires
        text_le(a, b),
        text_le(b, a),
    ensures
        a == b,
    decreases a.len(),
{
    if a.len() > 0 && b.len() > 0 {
        lemma_text_le_antisymmetric(a.drop_first(), b.drop_first());
        assert(a =~= seq![a[0]] + a.drop_first());
        assert(b =~= seq![b[0]] + b.drop_first());
    } else {
        assert(a =~= b);
    }
}

fn char_before(a: char, b: char) -> (before: bool)
    ensures
        before == ((a as int) < (b as int)),
{
    (a as u32) < (b as u32)
}

/// Compares two texts.
pub fn is_text_le(a: &str, b: &str) -> (le: bool)
    ensures
        le == text_le(a@, b@),
{
    let x = chars_of(a);
    let y = chars_of(b);
    let mut i: usize = 0;
    assert(x@.skip(0) =~= x@);
    assert(y@.skip(0) =~= y@);
    while i < x.len()
        invariant
            i <= x@.len(),
            i <= y@.len(),
            text_le(a@, b@) == text_le(x@.skip(i as int), y@.skip(i as int)),
        decreases x@.len() - i,
    {
        if i >= y.len() {
            return false;
        }
        assert(x@.skip(i as int)[0] == x@[i as int]);
        assert(y@.skip(i as int)[0] == y@[i as int]);
        if x[i] != y[i] {
            return char_before(x[i], y[i]);
        }
        assert(x@.skip(i as int).drop_first() =~= x@.skip(i + 1));
        assert(y@.skip(i as int).drop_first() =~= y@.skip(i + 1));
        i = i + 1;
    }
    true
}

proof fn lemma_insert_multiset(texts: Seq<Seq<char>>, at: int, text: Seq<char>)
    requires
        0 <= at <= texts.len(),
    ensures
        texts.insert(at, text).to_multiset() == texts.to_multiset().insert(text),
{
    broadcast use vstd::seq_lib::group_to_multiset_ensures;

    let whole = texts.insert(at, text);
    assert(whole.remove(at) =~= texts);
    assert(whole[at] == text);
    assert(whole.contains(text));
    assert(whole.to_multiset() =~= whole.to_multiset().remove(text).insert(text));
}

fn insert_sorted(texts: &mut Vec<String>, text: String)
    requires
        sorted(old(texts).deep_view()),
    ensures
        sorted(final(texts).deep_view()),
        final(texts).deep_view().to_multiset() == old(texts).deep_view().to_multiset().insert(
            text@,
        ),
{
    let ghost before = texts.deep_view();
    let mut at: usize = texts.len();
    while at > 0 && !is_text_le(texts[at - 1].as_str(), text.as_str())
        invariant
            at <= texts@.len(),
            texts.deep_view() == before,
            texts@ == old(texts)@,
            sorted(before),
            forall|j: int| at <= j < before.len() ==> text_le(text@, #[trigger] before[j]),
        decreases at,
    {
        proof {
            assert(before[at - 1] == texts@[at - 1]@);
            lemma_text_le_total(before[at - 1], text@);
        }
        at = at - 1;
    }
    proof {
        if at > 0 {
            assert(before[at - 1] == texts@[at - 1]@);
        }
        lemma_insert_multiset(before, at as int, text@);
    }
    let ghost key = text@;
    texts.insert(at, text);
    proof {
        let after = texts.deep_view();
        assert(after =~= before.insert(at as int, key));
        assert forall|i: int, j: int| 0 <= i < j < after.len() implies text_le(
            #[trigger] after[i],
            #[trigger] after[j],
        ) by {
            let x = if i < at { i } else { i - 1 };
            let y = if j < at { j } else { j - 1 };
            if i != at {
                assert(after[i] == before[x]);
            }
            if j != at {
                assert(after[j] == before[y]);
            }
            if j == at && i < at - 1 {
                lemma_text_le_transitive(before[i], before[at - 1], key);
            }
        }
    }
}

/// Sorts texts; texts that occur more than once stay as often as they occur.
pub fn sort_texts(texts: &Vec<String>) -> (out: Vec<String>)
    ensures
        sorted(out.deep_view()),
        out.deep_view().to_multiset() == texts.deep_view().to_multiset(),
{
    let mut out: Vec<String> = Vec::new();
    let mut i: usize = 0;
    assert(out.deep_view() =~= texts.deep_view().take(0));
    while i < texts.len()
        invariant
            i <= texts@.len(),
            sorted(out.deep_view()),
            out.deep_view().to_multiset() == texts.deep_view().take(i as int).to_multiset(),
        decreases texts@.len() - i,
    {
        insert_sorted(&mut out, texts[i].clone());
        proof {
            broadcast use vstd::seq_lib::group_to_multiset_ensures;

            let seen = texts.deep_view().take(i as int);
            let text = texts.deep_view()[i as int];
            assert(texts.deep_view().take(i + 1) =~= seen.push(text));
        }
        i = i + 1;
    }
    assert(texts.deep_view().take(i as int) =~= texts.deep_view());
    out
}

/// There is one way to sort texts.
pub proof fn lemma_sorted_unique(a: Seq<Seq<char>>, b: Seq<Seq<char>>)
    requires
        sorted(a),
        sorted(b),
        a.to_multiset() == b.to_multiset(),
    ensures
        a == b,
    decreases a.len(),
{
    broadcast use vstd::seq_lib::group_to_multiset_ensures;

    assert(a.len() == a.to_multiset().len());
    assert(b.len() == b.to_multiset().len());
    if a.len() > 0 {
        let x = a.last();
        let y = b.last();
        assert(a.contains(x) && b.contains(y));
        assert(b.to_multiset().count(x) > 0 && a.to_multiset().count(y) > 0);
        let i = b.index_of(x);
        let j = a.index_of(y);
        if i < b.len() - 1 {
            assert(text_le(b[i], b[b.len() - 1]));
        }
        if j < a.len() - 1 {
            assert(text_le(a[j], a[a.len() - 1]));
        }
        if x != y {
            lemma_text_le_antisymmetric(x, y);
        }
        assert(a.drop_last() =~= a.remove(a.len() - 1));
        assert(b.drop_last() =~= b.remove(b.len() - 1));
        lemma_sorted_unique(a.drop_last(), b.drop_last());
        assert(a =~= a.drop_last().push(x));
        assert(b =~= b.drop_last().push(y));
    } else {
        assert(a =~= b);
    }
}

/// Texts stand in the order of the first characters in which they differ,
/// wherever that is, and a text stands before those that it begins.
pub proof fn lemma_order_is_alphabetical(
    head: Seq<char>,
    x: char,
    s: Seq<char>,
    y: char,
    t: Seq<char>,
)
    requires
        x != y,
    ensures
        text_le(head + seq![x] + s, head + seq![y] + t) <==> (x as int) < (y as int),
        text_le(head, head + seq![x] + s),
        !text_le(head + seq![x] + s, head),
    decreases head.len(),
{
    let a = head + seq![x] + s;
    let b = head + seq![y] + t;
    if head.len() == 0 {
        assert(a[0] == x && b[0] == y);
    } else {
        lemma_order_is_alphabetical(head.drop_first(), x, s, y, t);
        assert(a.drop_first() =~= head.drop_first() + seq![x] + s);
        assert(b.drop_first() =~= head.drop_first() + seq![y] + t);
        assert(a[0] == head[0] && b[0] == head[0]);
    }
}

} // verus!
