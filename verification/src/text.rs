use vstd::prelude::*;

verus! {

/// `String::push` of the standard library appends one character at the end of
/// the string and changes nothing else.
pub assume_specification[ String::push ](s: &mut String, ch: char)
    ensures
        final(s)@ == old(s)@.push(ch),
;

/// The characters of `s`, in order.
pub fn chars_of(s: &str) -> (out: Vec<char>)
    ensures
        out@ == s@,
{
    let mut out: Vec<char> = Vec::new();
    for c in it: s.chars()
        invariant
            it.seq() == s@,
            out@ == s@.take(it.index() as int),
    {
        out.push(c);
        assert(s@.take(it.index() as int).push(c) =~= s@.take(it.index() + 1));
    }
    assert(s@.take(s@.len() as int) =~= s@);
    out
}

/// The string that holds the characters `from..to` of `chars`.
pub fn string_of(chars: &Vec<char>, from: usize, to: usize) -> (out: String)
    requires
        from <= to <= chars@.len(),
    ensures
        out@ == chars@.subrange(from as int, to as int),
{
    let mut out = String::new();
    let mut i: usize = from;
    while i < to
        invariant
            from <= i <= to <= chars@.len(),
            out@ == chars@.subrange(from as int, i as int),
        decreases to - i,
    {
        out.push(chars[i]);
        assert(chars@.subrange(from as int, i as int).push(chars@[i as int]) =~= chars@.subrange(
            from as int,
            i + 1,
        ));
        i = i + 1;
    }
    out
}

/// Whether the two texts hold the same characters.
pub fn same_text(a: &str, b: &str) -> (same: bool)
    ensures
        same == (a@ == b@),
{
    a.to_owned() == b.to_owned()
}

/// The digit of value `d` in bases up to sixteen, in lower case.
pub open spec fn digit(d: int) -> char {
    if d < 10 {
        (('0' as int) + d) as char
    } else {
        (('a' as int) + d - 10) as char
    }
}

/// The digits of `n` in `base`, most significant first and without leading
/// zeros.
pub open spec fn numeral(n: nat, base: nat) -> Seq<char>
    decreases n,
{
    if base < 2 || n < base {
        seq![digit(n as int)]
    } else {
        proof {
            assert(n / base < n) by (nonlinear_arith)
                requires
                    n >= base,
                    base >= 2,
            ;
        }
        numeral(n / base, base).push(digit((n % base) as int))
    }
}

/// A numeral is made of the digits of its base.
pub proof fn lemma_numeral_chars(n: nat, base: nat, i: int)
    requires
        2 <= base <= 16,
        0 <= i < numeral(n, base).len(),
    ensures
        exists|d: int| 0 <= d < base && numeral(n, base)[i] == #[trigger] digit(d),
    decreases n,
{
    if n >= base {
        assert(n / base < n) by (nonlinear_arith)
            requires
                n >= base,
                base >= 2,
        ;
        assert(0 <= n % base < base) by (nonlinear_arith)
            requires
                base >= 2,
        ;
    }
    if n >= base && i < numeral(n / base, base).len() {
        lemma_numeral_chars(n / base, base, i);
    } else if n >= base {
        assert(numeral(n, base)[i] == digit((n % base) as int));
    } else {
        assert(numeral(n, base)[i] == digit(n as int));
    }
}

/// Two numbers with the same numeral are equal.
pub proof fn lemma_numeral_injective(a: nat, b: nat, base: nat)
    requires
        2 <= base <= 16,
        numeral(a, base) == numeral(b, base),
    ensures
        a == b,
    decreases a,
{
    let x = numeral(a, base);
    let y = numeral(b, base);
    vstd::arithmetic::div_mod::lemma_fundamental_div_mod(a as int, base as int);
    vstd::arithmetic::div_mod::lemma_fundamental_div_mod(b as int, base as int);
    assert(0 <= a % base < base && 0 <= b % base < base) by (nonlinear_arith)
        requires
            base >= 2,
    ;
    if a < base {
        vstd::arithmetic::div_mod::lemma_small_mod(a, base);
    }
    if b < base {
        vstd::arithmetic::div_mod::lemma_small_mod(b, base);
    }
    assert(x.last() == digit((a % base) as int));
    assert(y.last() == digit((b % base) as int));
    assert(a % base == b % base);
    if a >= base {
        assert(x.drop_last() =~= numeral(a / base, base));
    }
    if b >= base {
        assert(y.drop_last() =~= numeral(b / base, base));
    }
    if a >= base && b >= base {
        assert(a / base < a) by (nonlinear_arith)
            requires
                a >= base,
                base >= 2,
        ;
        lemma_numeral_injective(a / base, b / base, base);
    } else if a >= base || b >= base {
        let n = if a >= base {
            a
        } else {
            b
        };
        assert(numeral(n / base, base).len() > 0);
    }
}

pub fn digit_char(d: u8) -> (c: char)
    requires
        d < 16,
    ensures
        c == digit(d as int),
{
    if d < 10 {
        (48u8 + d) as char
    } else {
        (87u8 + d) as char
    }
}

/// Writes `n` in `base`.
pub fn numeral_text(n: u64, base: u64) -> (out: String)
    requires
        2 <= base <= 16,
    ensures
        out@ == numeral(n as nat, base as nat),
    decreases n,
{
    if n < base {
        let mut out = String::new();
        out.push(digit_char(n as u8));
        assert(out@ =~= seq![digit(n as int)]);
        out
    } else {
        assert(n / base < n) by (nonlinear_arith)
            requires
                n >= base,
                base >= 2,
        ;
        let mut out = numeral_text(n / base, base);
        out.push(digit_char((n % base) as u8));
        out
    }
}

/// The rest of `s` behind `prefix`, where `s` starts with it.
pub fn strip_prefix(s: &str, prefix: &str) -> (rest: Option<String>)
    ensures
        rest is Some <==> prefix@.is_prefix_of(s@),
        rest matches Some(r) ==> s@ == prefix@ + r@,
{
    let text = chars_of(s);
    let head = chars_of(prefix);
    if head.len() > text.len() {
        return None;
    }
    let mut i: usize = 0;
    while i < head.len()
        invariant
            i <= head@.len() <= text@.len(),
            head@ == prefix@,
            text@ == s@,
            forall|j: int| 0 <= j < i ==> head@[j] == text@[j],
        decreases head@.len() - i,
    {
        if head[i] != text[i] {
            return None;
        }
        i = i + 1;
    }
    let rest = string_of(&text, head.len(), text.len());
    assert(prefix@ + rest@ =~= s@);
    Some(rest)
}

/// The texts of `texts`, copied.
pub fn clone_texts(texts: &Vec<String>) -> (out: Vec<String>)
    ensures
        out.deep_view() == texts.deep_view(),
{
    let mut out: Vec<String> = Vec::new();
    let mut i: usize = 0;
    while i < texts.len()
        invariant
            i <= texts@.len(),
            out.deep_view() == texts.deep_view().take(i as int),
        decreases texts@.len() - i,
    {
        let ghost before = out.deep_view();
        out.push(texts[i].clone());
        assert(out.deep_view() =~= before.push(texts.deep_view()[i as int]));
        assert(out.deep_view() =~= texts.deep_view().take(i + 1));
        i = i + 1;
    }
    assert(texts.deep_view().take(i as int) =~= texts.deep_view());
    out
}

// ---------------------------------------------------------------------
// Laws
// ---------------------------------------------------------------------

/// The number that digits stand for, the most significant first.
pub open spec fn number_of(digits: Seq<char>, base: nat) -> int
    decreases digits.len(),
{
    if digits.len() == 0 {
        0
    } else {
        let c = digits.last();
        let last = if '0' <= c && c <= '9' {
            c as int - '0' as int
        } else {
            c as int - 'a' as int + 10
        };
        number_of(digits.drop_last(), base) * base + last
    }
}

/// The numeral of a number stands for that number, and does not begin with a
/// zero unless it is one.
pub proof fn lemma_numeral_stands_for_its_number(n: nat, base: nat)
    requires
        2 <= base <= 16,
    ensures
        number_of(numeral(n, base), base) == n,
        numeral(n, base).len() > 0,
        numeral(n, base)[0] == '0' ==> n == 0 && numeral(n, base).len() == 1,
    decreases n,
{
    let digits = numeral(n, base);
    vstd::arithmetic::div_mod::lemma_fundamental_div_mod(n as int, base as int);
    assert(0 <= n % base < base) by (nonlinear_arith)
        requires
            base >= 2,
    ;
    if n < base {
        assert(digits.drop_last() =~= Seq::empty());
        reveal_with_fuel(number_of, 2);
    } else {
        assert(n / base < n && n / base >= 1) by (nonlinear_arith)
            requires
                n >= base,
                base >= 2,
        ;
        lemma_numeral_stands_for_its_number(n / base, base);
        assert(digits.drop_last() =~= numeral(n / base, base));
        assert(digits[0] == numeral(n / base, base)[0]);
        assert((n / base) * base + n % base == n) by (nonlinear_arith)
            requires
                n == base * (n / base) + n % base,
        ;
    }
}

} // verus!
