use vstd::prelude::*;
use vstd::std_specs::iter::IteratorSpec;

verus! {

broadcast use vstd::string::axiom_spec_iter;

/// Relies on String::push: appends one character.
#[verifier::external_body]
pub(crate) fn push_char(s: &mut String, c: char)
    ensures
        final(s)@ == old(s)@.push(c),
{
    s.push(c)
}

/// The character of the decimal digit `d`.
fn digit_of(d: u128) -> (r: char)
    requires
        d < 10,
    ensures
        r == digit_char(d as nat),
{
    if d == 0 { '0' }
    else if d == 1 { '1' }
    else if d == 2 { '2' }
    else if d == 3 { '3' }
    else if d == 4 { '4' }
    else if d == 5 { '5' }
    else if d == 6 { '6' }
    else if d == 7 { '7' }
    else if d == 8 { '8' }
    else { '9' }
}

/// Appends the decimal digits of `n`.
fn push_digits(s: &mut String, n: u128)
    ensures
        final(s)@ == old(s)@ + digits_text(n as nat),
    decreases n,
{
    if n >= 10 {
        push_digits(s, n / 10);
    }
    push_char(s, digit_of(n % 10));
    proof {
        if n >= 10 {
            assert(digits_text(n as nat) == digits_text((n / 10) as nat).push(digit_char((n % 10) as nat)));
        } else {
            assert(digits_text(n as nat) == seq![digit_char(n as nat)]);
        }
    }
    assert(final(s)@ =~= old(s)@ + digits_text(n as nat));
}

/// `n` written in decimal: a `-` when negative, then the digits without
/// leading zeros.
pub fn decimal_string(n: i128) -> (r: String)
    ensures
        r@ == decimal_text(n as int),
{
    let mut s = String::new();
    if n < 0 {
        push_char(&mut s, '-');
        let m: u128 = ((-(n + 1)) as u128) + 1;
        push_digits(&mut s, m);
        assert(s@ =~= seq!['-'] + digits_text((-n) as nat));
    } else {
        push_digits(&mut s, n as u128);
        assert(s@ =~= digits_text(n as nat));
    }
    s
}

/// The characters of `s`, in order.
pub fn chars_of(s: &str) -> (r: Vec<char>)
    ensures
        r@ == s@,
{
    let mut it = s.chars();
    let mut out: Vec<char> = Vec::new();
    loop
        invariant
            out@ + it.remaining() == s@,
            it.decrease() is Some,
        decreases it.decrease()->0,
    {
        let ghost before = it.remaining();
        match it.next() {
            Some(c) => {
                proof {
                    assert(before.len() > 0);
                    assert(out@.push(c) + it.remaining() =~= out@ + before);
                }
                out.push(c);
            },
            None => {
                assert(out@ =~= s@);
                return out;
            },
        }
    }
}

/// The string made of `v[lo..hi]`.
pub fn string_of(v: &Vec<char>, lo: usize, hi: usize) -> (r: String)
    requires
        lo <= hi <= v@.len(),
    ensures
        r@ == v@.subrange(lo as int, hi as int),
{
    let mut out = String::new();
    let mut i: usize = lo;
    while i < hi
        invariant
            lo <= i <= hi <= v@.len(),
            out@ == v@.subrange(lo as int, i as int),
        decreases hi - i,
    {
        push_char(&mut out, v[i]);
        assert(v@.subrange(lo as int, i + 1) =~= v@.subrange(lo as int, i as int).push(v@[i as int]));
        i = i + 1;
    }
    out
}

/// A line terminator character.
pub open spec fn is_line_end(c: char) -> bool {
    c == '\r' || c == '\n'
}

/// A character that trimming removes: line terminators, and spaces too when
/// `spaces` holds.
pub open spec fn is_trimmed(c: char, spaces: bool) -> bool {
    is_line_end(c) || (spaces && c == ' ')
}

/// `s` without its trailing trimmed characters.
pub open spec fn trim_end(s: Seq<char>, spaces: bool) -> Seq<char>
    decreases s.len(),
{
    if s.len() > 0 && is_trimmed(s.last(), spaces) {
        trim_end(s.drop_last(), spaces)
    } else {
        s
    }
}

/// `s` without its leading trimmed characters.
pub open spec fn trim_start(s: Seq<char>, spaces: bool) -> Seq<char>
    decreases s.len(),
{
    if s.len() > 0 && is_trimmed(s[0], spaces) {
        trim_start(s.drop_first(), spaces)
    } else {
        s
    }
}

/// `s` without trimmed characters at either end.
pub open spec fn trim(s: Seq<char>, spaces: bool) -> Seq<char> {
    trim_start(trim_end(s, spaces), spaces)
}

fn trimmed_char(c: char, spaces: bool) -> (r: bool)
    ensures
        r == is_trimmed(c, spaces),
{
    c == '\r' || c == '\n' || (spaces && c == ' ')
}

/// The bounds of `s[from..to]` once trimmed at both ends.
pub fn trim_bounds(s: &Vec<char>, from: usize, to: usize, spaces: bool) -> (r: (usize, usize))
    requires
        from <= to <= s@.len(),
    ensures
        from <= r.0 <= r.1 <= to,
        s@.subrange(r.0 as int, r.1 as int) == trim(s@.subrange(from as int, to as int), spaces),
{
    let ghost t = s@.subrange(from as int, to as int);
    let mut hi: usize = to;
    while hi > from && trimmed_char(s[hi - 1], spaces)
        invariant
            from <= hi <= to <= s@.len(),
            trim_end(t, spaces) == trim_end(s@.subrange(from as int, hi as int), spaces),
        decreases hi,
    {
        assert(s@.subrange(from as int, hi as int).drop_last() =~= s@.subrange(
            from as int,
            hi - 1,
        ));
        hi = hi - 1;
    }
    assert(trim_end(s@.subrange(from as int, hi as int), spaces) == s@.subrange(
        from as int,
        hi as int,
    ));
    let mut lo: usize = from;
    while lo < hi && trimmed_char(s[lo], spaces)
        invariant
            from <= lo <= hi <= to <= s@.len(),
            trim(t, spaces) == trim_start(s@.subrange(lo as int, hi as int), spaces),
        decreases hi - lo,
    {
        assert(s@.subrange(lo as int, hi as int).drop_first() =~= s@.subrange(
            lo + 1,
            hi as int,
        ));
        lo = lo + 1;
    }
    (lo, hi)
}

/// `s` cut at every `sep`; the pieces keep their order and may be empty.
pub open spec fn split_on(s: Seq<char>, sep: char) -> Seq<Seq<char>>
    decreases s.len(),
{
    if s.len() == 0 {
        seq![Seq::<char>::empty()]
    } else {
        let prev = split_on(s.drop_last(), sep);
        if s.last() == sep {
            prev.push(Seq::<char>::empty())
        } else {
            prev.update(prev.len() - 1, prev.last().push(s.last()))
        }
    }
}

pub proof fn lemma_split_nonempty(s: Seq<char>, sep: char)
    ensures
        split_on(s, sep).len() >= 1,
    decreases s.len(),
{
    if s.len() > 0 {
        lemma_split_nonempty(s.drop_last(), sep);
    }
}

/// The pieces of `v` between bounds, as views.
pub open spec fn pieces(v: Seq<char>, bounds: Seq<(usize, usize)>) -> Seq<Seq<char>> {
    Seq::new(bounds.len(), |k: int| v.subrange(bounds[k].0 as int, bounds[k].1 as int))
}

/// The bounds of the pieces of `s[from..to]` cut at every `sep`.
pub fn split_bounds(s: &Vec<char>, from: usize, to: usize, sep: char) -> (r: Vec<(usize, usize)>)
    requires
        from <= to <= s@.len(),
    ensures
        pieces(s@, r@) == split_on(s@.subrange(from as int, to as int), sep),
        forall|k: int| 0 <= k < r@.len() ==> from <= #[trigger] r@[k].0 <= r@[k].1 <= to,
{
    let mut out: Vec<(usize, usize)> = Vec::new();
    let mut start: usize = from;
    let mut i: usize = from;
    assert(s@.subrange(from as int, from as int) =~= Seq::<char>::empty());
    assert(split_on(Seq::<char>::empty(), sep) == seq![Seq::<char>::empty()]);
    assert(pieces(s@, out@.push((start, i))) =~= seq![Seq::<char>::empty()]);
    while i < to
        invariant
            from <= start <= i <= to <= s@.len(),
            forall|k: int| 0 <= k < out@.len() ==> from <= #[trigger] out@[k].0 <= out@[k].1 <= i,
            pieces(s@, out@.push((start, i))) == split_on(s@.subrange(from as int, i as int), sep),
        decreases to - i,
    {
        let ghost prev = out@.push((start, i));
        assert(s@.subrange(from as int, i + 1).drop_last() =~= s@.subrange(from as int, i as int));
        if s[i] == sep {
            out.push((start, i));
            start = i + 1;
            assert(s@.subrange(start as int, start as int) =~= Seq::<char>::empty());
            assert(pieces(s@, out@.push((start, (i + 1) as usize))) =~= pieces(s@, prev).push(
                Seq::<char>::empty(),
            ));
        } else {
            assert(s@.subrange(start as int, i + 1) =~= s@.subrange(start as int, i as int).push(
                s@[i as int],
            ));
            assert(pieces(s@, out@.push((start, (i + 1) as usize))) =~= pieces(s@, prev).update(
                prev.len() - 1,
                pieces(s@, prev).last().push(s@[i as int]),
            ));
        }
        i = i + 1;
    }
    out.push((start, to));
    out
}

/// A decimal digit.
pub open spec fn is_digit(c: char) -> bool {
    '0' <= c && c <= '9'
}

pub open spec fn all_digits(s: Seq<char>) -> bool {
    forall|i: int| 0 <= i < s.len() ==> is_digit(#[trigger] s[i])
}

pub open spec fn digit_value(c: char) -> int {
    (c as u32) as int - ('0' as u32) as int
}

/// The value of a run of decimal digits.
pub open spec fn digits_value(s: Seq<char>) -> int
    decreases s.len(),
{
    if s.len() == 0 {
        0
    } else {
        digits_value(s.drop_last()) * 10 + digit_value(s.last())
    }
}

/// Text that reads as a signed decimal integer: digits, after an optional sign.
pub open spec fn is_decimal(s: Seq<char>) -> bool {
    ||| s.len() > 0 && all_digits(s)
    ||| s.len() > 1 && (s[0] == '-' || s[0] == '+') && all_digits(s.drop_first())
}

/// The value of decimal text.
pub open spec fn decimal_value(s: Seq<char>) -> int {
    if s.len() > 0 && s[0] == '-' {
        -digits_value(s.drop_first())
    } else if s.len() > 0 && s[0] == '+' {
        digits_value(s.drop_first())
    } else {
        digits_value(s)
    }
}

/// Decimal text that fits a signed machine integer.
pub open spec fn is_isize_text(s: Seq<char>) -> bool {
    is_decimal(s) && isize::MIN <= decimal_value(s) <= isize::MAX
}

proof fn lemma_digits_monotone(s: Seq<char>, j: int)
    requires
        all_digits(s),
        0 <= j <= s.len(),
    ensures
        0 <= digits_value(s.subrange(0, j)) <= digits_value(s),
    decreases s.len(),
{
    if s.len() > 0 {
        let p = s.drop_last();
        assert(all_digits(p));
        if j < s.len() {
            lemma_digits_monotone(p, j);
            assert(p.subrange(0, j) =~= s.subrange(0, j));
        } else {
            lemma_digits_monotone(p, p.len() as int);
            assert(p.subrange(0, p.len() as int) =~= p);
            assert(s.subrange(0, j) =~= s);
        }
    } else {
        assert(s.subrange(0, j) =~= s);
    }
}

/// Reads `s[from..to]` as a signed decimal integer, as `isize::from_str` does.
pub fn parse_decimal(s: &Vec<char>, from: usize, to: usize) -> (r: Option<isize>)
    requires
        from <= to <= s@.len(),
    ensures
        r is Some <==> is_isize_text(s@.subrange(from as int, to as int)),
        r is Some ==> r->0 == decimal_value(s@.subrange(from as int, to as int)),
{
    let ghost t = s@.subrange(from as int, to as int);
    if from >= to {
        return None;
    }
    let neg = s[from] == '-';
    let signed = neg || s[from] == '+';
    let start: usize = if signed { from + 1 } else { from };
    let ghost w = s@.subrange(start as int, to as int);
    proof {
        if signed {
            assert(t.drop_first() =~= w);
        } else {
            assert(t =~= w);
        }
    }
    if start >= to {
        proof {
            assert(!is_digit(t[0]));
        }
        return None;
    }
    let mut acc: isize = 0;
    let mut i: usize = start;
    while i < to
        invariant
            from <= start <= i <= to <= s@.len(),
            start < to,
            w == s@.subrange(start as int, to as int),
            t == s@.subrange(from as int, to as int),
            neg == (s@[from as int] == '-'),
            signed == (s@[from as int] == '-' || s@[from as int] == '+'),
            start == if signed { from + 1 } else { from as int },
            signed ==> t.drop_first() == w,
            !signed ==> t == w,
            all_digits(s@.subrange(start as int, i as int)),
            acc == if neg {
                -digits_value(s@.subrange(start as int, i as int))
            } else {
                digits_value(s@.subrange(start as int, i as int))
            },
        decreases to - i,
    {
        let c = s[i];
        if !('0' <= c && c <= '9') {
            proof {
                assert(w.len() == to - start);
                assert(w[(i - start) as int] == c);
                if signed {
                    assert(t[0] == '-' || t[0] == '+');
                    assert(!is_digit(t[0]));
                }
            }
            return None;
        }
        let ghost p = s@.subrange(start as int, i + 1);
        assert(p.drop_last() =~= s@.subrange(start as int, i as int));
        assert(all_digits(p));
        let d = (c as u32 - '0' as u32) as isize;
        let next = if neg {
            match acc.checked_mul(10) {
                Some(m) => m.checked_sub(d),
                None => None,
            }
        } else {
            match acc.checked_mul(10) {
                Some(m) => m.checked_add(d),
                None => None,
            }
        };
        match next {
            Some(n) => {
                acc = n;
            },
            None => {
                proof {
                    if all_digits(w) {
                        assert(w.subrange(0, i + 1 - start) =~= p);
                        lemma_digits_monotone(w, i + 1 - start);
                        lemma_digits_monotone(p, p.len() - 1);
                        assert(p.subrange(0, p.len() - 1) =~= p.drop_last());
                    }
                    if signed {
                        assert(!is_digit(t[0]));
                    }
                }
                return None;
            },
        }
        i = i + 1;
    }
    proof {
        assert(s@.subrange(start as int, i as int) =~= w);
        if signed {
            assert(!is_digit(t[0]));
        } else {
            assert(is_digit(t[0]));
        }
    }
    Some(acc)
}

/// The character of a decimal digit.
pub open spec fn digit_char(d: nat) -> char {
    if d == 0 { '0' }
    else if d == 1 { '1' }
    else if d == 2 { '2' }
    else if d == 3 { '3' }
    else if d == 4 { '4' }
    else if d == 5 { '5' }
    else if d == 6 { '6' }
    else if d == 7 { '7' }
    else if d == 8 { '8' }
    else { '9' }
}

/// The decimal digits of `n`, most significant first, without leading zeros.
pub open spec fn digits_text(n: nat) -> Seq<char>
    decreases n,
{
    if n < 10 {
        seq![digit_char(n)]
    } else {
        digits_text(n / 10).push(digit_char(n % 10))
    }
}

/// `n` written in decimal, with a leading `-` when negative.
pub open spec fn decimal_text(n: int) -> Seq<char> {
    if n < 0 {
        seq!['-'] + digits_text((-n) as nat)
    } else {
        digits_text(n as nat)
    }
}

proof fn lemma_digit_char(d: nat)
    requires
        d < 10,
    ensures
        is_digit(digit_char(d)),
        digit_value(digit_char(d)) == d,
{
}

pub proof fn lemma_digits_text(n: nat)
    ensures
        digits_text(n).len() >= 1,
        all_digits(digits_text(n)),
        digits_value(digits_text(n)) == n,
    decreases n,
{
    let t = digits_text(n);
    if n >= 10 {
        lemma_digits_text(n / 10);
        lemma_digit_char(n % 10);
        assert(t.drop_last() =~= digits_text(n / 10));
        assert forall|i: int| 0 <= i < t.len() implies is_digit(#[trigger] t[i]) by {
            if i < t.len() - 1 {
                assert(t[i] == digits_text(n / 10)[i]);
            }
        }
        assert(digits_value(t) == (n / 10) * 10 + n % 10);
    } else {
        lemma_digit_char(n);
        assert(t.drop_last() =~= Seq::<char>::empty());
        assert(digits_value(t) == digits_value(t.drop_last()) * 10 + digit_value(t.last()));
    }
}

/// Decimal text reads back as the number it was written from.
pub proof fn lemma_decimal_round_trip(n: int)
    ensures
        is_decimal(decimal_text(n)),
        decimal_value(decimal_text(n)) == n,
        decimal_text(n).len() >= 1,
        forall|i: int| 0 <= i < decimal_text(n).len() ==> !is_trimmed(#[trigger] decimal_text(n)[i], true),
{
    if n < 0 {
        lemma_digits_text((-n) as nat);
        assert((seq!['-'] + digits_text((-n) as nat)).drop_first() =~= digits_text((-n) as nat));
        let t = decimal_text(n);
        assert forall|i: int| 0 <= i < t.len() implies !is_trimmed(#[trigger] t[i], true) by {
            if i > 0 {
                assert(t[i] == digits_text((-n) as nat)[i - 1]);
            }
        }
    } else {
        lemma_digits_text(n as nat);
    }
}

/// A piece with no separator and no trimmed character: a word of a status line.
pub open spec fn is_word(w: Seq<char>) -> bool {
    &&& w.len() >= 1
    &&& forall|i: int| 0 <= i < w.len() ==> !is_trimmed(#[trigger] w[i], true)
}

pub proof fn lemma_split_extend(x: Seq<char>, y: Seq<char>, sep: char)
    requires
        forall|i: int| 0 <= i < y.len() ==> #[trigger] y[i] != sep,
    ensures
        split_on(x + y, sep) == split_on(x, sep).update(
            split_on(x, sep).len() - 1,
            split_on(x, sep).last() + y,
        ),
    decreases y.len(),
{
    lemma_split_nonempty(x, sep);
    if y.len() == 0 {
        assert(x + y =~= x);
        assert(split_on(x, sep).last() + y =~= split_on(x, sep).last());
        assert(split_on(x, sep).update(split_on(x, sep).len() - 1, split_on(x, sep).last())
            =~= split_on(x, sep));
    } else {
        let y0 = y.drop_last();
        lemma_split_extend(x, y0, sep);
        assert((x + y).drop_last() =~= x + y0);
        assert((split_on(x, sep).last() + y0).push(y.last()) =~= split_on(x, sep).last() + y);
        assert(split_on(x + y, sep) =~= split_on(x, sep).update(
            split_on(x, sep).len() - 1,
            split_on(x, sep).last() + y,
        ));
    }
}

/// Cutting four words joined by single separators gives back the four words.
pub proof fn lemma_split_four(a: Seq<char>, b: Seq<char>, c: Seq<char>, d: Seq<char>, sep: char)
    requires
        forall|i: int| 0 <= i < a.len() ==> #[trigger] a[i] != sep,
        forall|i: int| 0 <= i < b.len() ==> #[trigger] b[i] != sep,
        forall|i: int| 0 <= i < c.len() ==> #[trigger] c[i] != sep,
        forall|i: int| 0 <= i < d.len() ==> #[trigger] d[i] != sep,
    ensures
        split_on(a + seq![sep] + b + seq![sep] + c + seq![sep] + d, sep) == seq![a, b, c, d],
{
    let e = Seq::<char>::empty();
    assert(split_on(e, sep) == seq![e]);
    lemma_split_extend(e, a, sep);
    assert(e + a =~= a);
    assert(split_on(a, sep) =~= seq![a]);
    let a1 = a + seq![sep];
    assert(a1.drop_last() =~= a);
    assert(split_on(a1, sep) =~= seq![a, e]);
    lemma_split_extend(a1, b, sep);
    assert(split_on(a1 + b, sep) =~= seq![a, b]);
    let b1 = a1 + b + seq![sep];
    assert(b1.drop_last() =~= a1 + b);
    assert(split_on(b1, sep) =~= seq![a, b, e]);
    lemma_split_extend(b1, c, sep);
    assert(split_on(b1 + c, sep) =~= seq![a, b, c]);
    let c1 = b1 + c + seq![sep];
    assert(c1.drop_last() =~= b1 + c);
    assert(split_on(c1, sep) =~= seq![a, b, c, e]);
    lemma_split_extend(c1, d, sep);
    assert(split_on(c1 + d, sep) =~= seq![a, b, c, d]);
    assert(a + seq![sep] + b + seq![sep] + c + seq![sep] + d =~= c1 + d);
}

/// Text that starts and ends with a character trimming keeps is left alone.
pub proof fn lemma_trim_untouched(s: Seq<char>, spaces: bool)
    requires
        s.len() >= 1,
        !is_trimmed(s[0], spaces),
        !is_trimmed(s.last(), spaces),
    ensures
        trim(s, spaces) == s,
{
}

} // verus!
