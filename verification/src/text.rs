//! Character-level helpers shared by the parsers and formatters.

use vstd::prelude::*;

verus! {

/// The characters of `s`, in order.
pub fn chars_of(s: &str) -> (v: Vec<char>)
    ensures
        v@ == s@,
{
    let mut v: Vec<char> = Vec::new();
    for c in it: s.chars()
        invariant
            v@ == it.seq().take(it.index() as int),
            it.seq() == s@,
    {
        v.push(c);
    }
    v
}

} // verus!

verus! {

/// Appends `c` to `s` (`String::push`).
#[verifier::external_body]
fn push_char(s: &mut String, c: char)
    ensures
        final(s)@ == old(s)@.push(c),
{
    s.push(c);
}

/// A `String` holding exactly the characters of `v`.
pub fn string_from_chars(v: &Vec<char>) -> (r: String)
    ensures
        r@ == v@,
{
    let mut r = String::new();
    let mut i: usize = 0;
    while i < v.len()
        invariant
            i <= v.len(),
            r@ == v@.take(i as int),
        decreases v.len() - i,
    {
        push_char(&mut r, v[i]);
        assert(v@.take(i as int).push(v@[i as int]) =~= v@.take(i + 1));
        i += 1;
    }
    assert(v@.take(v.len() as int) =~= v@);
    r
}

/// The ASCII digit for `d` (`d < 10`).
pub open spec fn digit_char(d: nat) -> char {
    if d == 0 { '0' } else if d == 1 { '1' } else if d == 2 { '2' } else if d == 3 { '3' }
    else if d == 4 { '4' } else if d == 5 { '5' } else if d == 6 { '6' } else if d == 7 { '7' }
    else if d == 8 { '8' } else { '9' }
}

/// Whether `c` is an ASCII decimal digit.
pub open spec fn is_digit(c: char) -> bool {
    '0' <= c && c <= '9'
}

/// The value of the ASCII digit `c`.
pub open spec fn digit_value(c: char) -> nat {
    (c as int - '0' as int) as nat
}

/// Decimal representation of `n` without leading zeros.
pub open spec fn dec(n: nat) -> Seq<char>
    decreases n,
{
    if n < 10 {
        seq![digit_char(n)]
    } else {
        dec(n / 10).push(digit_char(n % 10))
    }
}

/// `s` padded on the left with `c` up to `width` characters.
pub open spec fn pad_left(s: Seq<char>, width: nat, c: char) -> Seq<char> {
    if s.len() >= width {
        s
    } else {
        Seq::new((width - s.len()) as nat, |_i: int| c) + s
    }
}

/// `s` padded on the right with spaces up to `width` characters.
pub open spec fn pad_right(s: Seq<char>, width: nat) -> Seq<char> {
    if s.len() >= width {
        s
    } else {
        s + Seq::new((width - s.len()) as nat, |_i: int| ' ')
    }
}

fn digit_to_char(d: u64) -> (c: char)
    requires
        d < 10,
    ensures
        c == digit_char(d as nat),
{
    if d == 0 { '0' } else if d == 1 { '1' } else if d == 2 { '2' } else if d == 3 { '3' }
    else if d == 4 { '4' } else if d == 5 { '5' } else if d == 6 { '6' } else if d == 7 { '7' }
    else if d == 8 { '8' } else { '9' }
}

/// The decimal digits of `n` (as `format!("{}", n)` writes them).
pub fn dec_chars(n: u64) -> (v: Vec<char>)
    ensures
        v@ == dec(n as nat),
    decreases n,
{
    if n < 10 {
        let mut v = Vec::new();
        v.push(digit_to_char(n));
        v
    } else {
        let mut v = dec_chars(n / 10);
        v.push(digit_to_char(n % 10));
        v
    }
}

/// Appends the characters of `w` to `v`.
pub fn extend_chars(v: &mut Vec<char>, w: &Vec<char>)
    ensures
        final(v)@ == old(v)@ + w@,
{
    let mut i: usize = 0;
    while i < w.len()
        invariant
            i <= w.len(),
            v@ == old(v)@ + w@.take(i as int),
        decreases w.len() - i,
    {
        v.push(w[i]);
        assert(w@.take(i as int).push(w@[i as int]) =~= w@.take(i + 1));
        i += 1;
    }
    assert(w@.take(w.len() as int) =~= w@);
}

/// Appends the characters of `s` to `v`.
pub fn extend_str(v: &mut Vec<char>, s: &str)
    ensures
        final(v)@ == old(v)@ + s@,
{
    let w = chars_of(s);
    extend_chars(v, &w);
}

/// `w` padded on the left with `c` up to `width` characters.
pub fn pad_left_chars(w: &Vec<char>, width: usize, c: char) -> (v: Vec<char>)
    ensures
        v@ == pad_left(w@, width as nat, c),
{
    let mut v: Vec<char> = Vec::new();
    if w.len() < width {
        let k = width - w.len();
        let mut i: usize = 0;
        while i < k
            invariant
                i <= k,
                v@ == Seq::new(i as nat, |_j: int| c),
            decreases k - i,
        {
            v.push(c);
            i += 1;
            assert(v@ =~= Seq::new(i as nat, |_j: int| c));
        }
    }
    extend_chars(&mut v, w);
    proof {
        if w@.len() < width {
            assert(v@ =~= pad_left(w@, width as nat, c));
        } else {
            assert(v@ =~= w@);
        }
    }
    v
}

/// `w` padded on the right with spaces up to `width` characters.
pub fn pad_right_chars(w: &Vec<char>, width: usize) -> (v: Vec<char>)
    ensures
        v@ == pad_right(w@, width as nat),
{
    let mut v: Vec<char> = w.clone();
    assert(v@ =~= w@);
    if w.len() < width {
        let k = width - w.len();
        let mut i: usize = 0;
        while i < k
            invariant
                i <= k,
                v@ == w@ + Seq::new(i as nat, |_j: int| ' '),
            decreases k - i,
        {
            v.push(' ');
            i += 1;
            assert(v@ =~= w@ + Seq::new(i as nat, |_j: int| ' '));
        }
    }
    v
}

} // verus!

verus! {

/// Every character of `s` is an ASCII digit.
pub open spec fn all_digits(s: Seq<char>) -> bool {
    forall|i: int| 0 <= i < s.len() ==> is_digit(#[trigger] s[i])
}

/// The number that the decimal digits `s` denote.
pub open spec fn digits_value(s: Seq<char>) -> nat
    decreases s.len(),
{
    if s.len() == 0 {
        0
    } else {
        digits_value(s.drop_last()) * 10 + digit_value(s.last())
    }
}

/// The digits of an unsigned number, after an optional leading `+`.
pub open spec fn unsigned_digits(s: Seq<char>) -> Seq<char> {
    if s.len() > 0 && s[0] == '+' {
        s.drop_first()
    } else {
        s
    }
}

/// What `str::parse` gives for an unsigned integer type whose maximum is `max`:
/// an optional `+`, then at least one ASCII digit, and a value no larger than `max`.
pub open spec fn parse_unsigned_spec(s: Seq<char>, max: nat) -> Option<nat> {
    let d = unsigned_digits(s);
    if d.len() > 0 && all_digits(d) && digits_value(d) <= max {
        Some(digits_value(d))
    } else {
        None
    }
}

/// What `str::parse::<i32>` gives: an optional sign, then at least one ASCII digit,
/// and a value within the range of `i32`.
pub open spec fn parse_i32_spec(s: Seq<char>) -> Option<int> {
    if s.len() > 0 && s[0] == '-' {
        let d = s.drop_first();
        if d.len() > 0 && all_digits(d) && digits_value(d) <= 0x8000_0000 {
            Some(-(digits_value(d) as int))
        } else {
            None
        }
    } else {
        match parse_unsigned_spec(s, 0x7fff_ffff) {
            Some(v) => Some(v as int),
            None => None,
        }
    }
}

/// A longer run of digits never denotes a smaller number.
pub proof fn lemma_digits_value_prefix(s: Seq<char>, i: int, j: int)
    requires
        0 <= i <= j <= s.len(),
    ensures
        digits_value(s.take(i)) <= digits_value(s.take(j)),
    decreases j - i,
{
    if i < j {
        lemma_digits_value_prefix(s, i, j - 1);
        assert(s.take(j).drop_last() =~= s.take(j - 1));
    }
}

/// `dec(n)` is a run of digits, without `+` or `.`, that denotes `n`.
pub proof fn lemma_dec_digits(n: nat)
    ensures
        dec(n).len() > 0,
        all_digits(dec(n)),
        digits_value(dec(n)) == n,
        !dec(n).contains('.'),
        !dec(n).contains('+'),
    decreases n,
{
    if n < 10 {
        let d = dec(n);
        assert(d.drop_last() =~= Seq::<char>::empty());
        assert(digits_value(Seq::<char>::empty()) == 0);
        assert(d.last() == digit_char(n));
        assert(digit_value(digit_char(n)) == n);
        assert(digits_value(d) == digits_value(d.drop_last()) * 10 + digit_value(d.last()));
        if d.contains('.') || d.contains('+') {
            assert(d[0] == digit_char(n));
        }
    } else {
        lemma_dec_digits(n / 10);
        let d = dec(n);
        let p = dec(n / 10);
        assert(d == p.push(digit_char(n % 10)));
        assert(d.drop_last() =~= p);
        assert(digit_value(digit_char(n % 10)) == n % 10);
        assert(n == (n / 10) * 10 + n % 10);
        assert(d.last() == digit_char(n % 10));
        assert(digits_value(d) == digits_value(d.drop_last()) * 10 + digit_value(d.last()));
        assert forall|i: int| 0 <= i < d.len() implies is_digit(#[trigger] d[i]) by {
            if i < p.len() {
                assert(d[i] == p[i]);
            }
        }
        assert(!d.contains('.') && !d.contains('+')) by {
            if d.contains('.') || d.contains('+') {
                let i = choose|i: int| 0 <= i < d.len() && (d[i] == '.' || d[i] == '+');
                if i < p.len() {
                    assert(d[i] == p[i]);
                    assert(p.contains(d[i]));
                }
            }
        }
    }
}

/// `dec(n)` parses back to `n` for any maximum at least `n`.
pub proof fn lemma_dec_parses(n: nat, max: nat)
    requires
        n <= max,
    ensures
        parse_unsigned_spec(dec(n), max) == Some(n),
{
    lemma_dec_digits(n);
    let d = dec(n);
    assert(d[0] != '+') by {
        if d[0] == '+' {
            assert(d.contains('+'));
        }
    }
}

/// Parses the characters `v[lo..hi]` as an unsigned number no larger than `max`.
pub fn parse_unsigned_range(v: &Vec<char>, lo: usize, hi: usize, max: u64) -> (r: Option<u64>)
    requires
        lo <= hi <= v.len(),
    ensures
        match parse_unsigned_spec(v@.subrange(lo as int, hi as int), max as nat) {
            Some(n) => r == Some(n as u64),
            None => r is None,
        },
{
    let ghost s = v@.subrange(lo as int, hi as int);
    let mut start = lo;
    if lo < hi && v[lo] == '+' {
        start = lo + 1;
    }
    let ghost d = v@.subrange(start as int, hi as int);
    assert(d =~= unsigned_digits(s));
    if start == hi {
        return None;
    }
    let mut acc: u128 = 0;
    let mut i = start;
    while i < hi
        invariant
            start <= i <= hi <= v.len(),
            d == v@.subrange(start as int, hi as int),
            d == unsigned_digits(v@.subrange(lo as int, hi as int)),
            acc as nat == digits_value(d.take(i - start)),
            acc <= max,
            all_digits(d.take(i - start)),
        decreases hi - i,
    {
        let c = v[i];
        assert(c == d[i - start]);
        if !('0' <= c && c <= '9') {
            assert(!all_digits(d));
            return None;
        }
        let dig = (c as u32 - '0' as u32) as u128;
        assert(d.take(i - start + 1).drop_last() =~= d.take(i - start));
        acc = acc * 10 + dig;
        i += 1;
        assert(all_digits(d.take(i - start))) by {
            assert forall|k: int| 0 <= k < d.take(i - start).len() implies is_digit(
                #[trigger] d.take(i - start)[k],
            ) by {
                if k < i - start - 1 {
                    assert(d.take(i - start)[k] == d.take(i - start - 1)[k]);
                }
            }
        }
        if acc > max as u128 {
            proof {
                lemma_digits_value_prefix(d, i - start, d.len() as int);
                assert(d.take(d.len() as int) =~= d);
            }
            return None;
        }
    }
    assert(d.take(d.len() as int) =~= d);
    Some(acc as u64)
}

/// Parses the characters `v[lo..hi]` as `str::parse::<i32>` does.
pub fn parse_i32_range(v: &Vec<char>, lo: usize, hi: usize) -> (r: Option<i32>)
    requires
        lo <= hi <= v.len(),
    ensures
        match parse_i32_spec(v@.subrange(lo as int, hi as int)) {
            Some(n) => r == Some(n as i32),
            None => r is None,
        },
{
    let ghost s = v@.subrange(lo as int, hi as int);
    if lo < hi && v[lo] == '-' {
        assert(v@.subrange(lo + 1, hi as int) =~= s.drop_first());
        if lo + 1 < hi && v[lo + 1] == '+' {
            assert(!is_digit(s.drop_first()[0]));
            return None;
        }
        let m = parse_unsigned_range(v, lo + 1, hi, 0x8000_0000);
        match m {
            Some(n) => {
                if n == 0x8000_0000 {
                    Some(-2147483648i32)
                } else {
                    Some(-(n as i32))
                }
            },
            None => None,
        }
    } else {
        match parse_unsigned_range(v, lo, hi, 0x7fff_ffff) {
            Some(n) => Some(n as i32),
            None => None,
        }
    }
}

} // verus!

verus! {

/// Whether `v[lo..hi]` holds exactly the characters `w`.
pub fn range_eq(v: &Vec<char>, lo: usize, hi: usize, w: &Vec<char>) -> (r: bool)
    requires
        lo <= hi <= v.len(),
    ensures
        r == (v@.subrange(lo as int, hi as int) == w@),
{
    if hi - lo != w.len() {
        return false;
    }
    let mut i: usize = 0;
    while i < w.len()
        invariant
            i <= w.len(),
            hi - lo == w.len(),
            lo <= hi <= v.len(),
            forall|k: int| 0 <= k < i ==> v@[lo + k] == w@[k],
        decreases w.len() - i,
    {
        if v[lo + i] != w[i] {
            assert(v@.subrange(lo as int, hi as int)[i as int] != w@[i as int]);
            return false;
        }
        i += 1;
    }
    assert(v@.subrange(lo as int, hi as int) =~= w@);
    true
}

/// Whether `v` holds exactly the characters of `s`.
pub fn chars_eq_str(v: &Vec<char>, s: &str) -> (r: bool)
    ensures
        r == (v@ == s@),
{
    let w = chars_of(s);
    let r = range_eq(v, 0, v.len(), &w);
    assert(v@.subrange(0, v@.len() as int) =~= v@);
    r
}

/// Whether `v[lo..hi]` begins with the characters `w`.
pub fn range_starts_with(v: &Vec<char>, lo: usize, hi: usize, w: &Vec<char>) -> (r: bool)
    requires
        lo <= hi <= v.len(),
    ensures
        r == starts_with(v@.subrange(lo as int, hi as int), w@),
{
    if hi - lo < w.len() {
        return false;
    }
    let r = range_eq(v, lo, lo + w.len(), &w);
    assert(v@.subrange(lo as int, hi as int).take(w@.len() as int) =~= v@.subrange(
        lo as int,
        lo + w@.len(),
    ));
    r
}

/// `s` begins with `p`.
pub open spec fn starts_with(s: Seq<char>, p: Seq<char>) -> bool {
    s.len() >= p.len() && s.take(p.len() as int) == p
}

/// `s` ends with `p`.
pub open spec fn ends_with(s: Seq<char>, p: Seq<char>) -> bool {
    s.len() >= p.len() && s.skip(s.len() - p.len()) == p
}

/// Whether `v[lo..hi]` ends with the characters `w`.
pub fn range_ends_with(v: &Vec<char>, lo: usize, hi: usize, w: &Vec<char>) -> (r: bool)
    requires
        lo <= hi <= v.len(),
    ensures
        r == ends_with(v@.subrange(lo as int, hi as int), w@),
{
    if hi - lo < w.len() {
        return false;
    }
    let r = range_eq(v, hi - w.len(), hi, &w);
    assert(v@.subrange(lo as int, hi as int).skip((hi - lo) - w@.len()) =~= v@.subrange(
        hi - w@.len(),
        hi as int,
    ));
    r
}

/// A copy of `v[lo..hi]`.
pub fn sub_chars(v: &Vec<char>, lo: usize, hi: usize) -> (r: Vec<char>)
    requires
        lo <= hi <= v.len(),
    ensures
        r@ == v@.subrange(lo as int, hi as int),
{
    let mut r: Vec<char> = Vec::new();
    let mut i = lo;
    while i < hi
        invariant
            lo <= i <= hi <= v.len(),
            r@ == v@.subrange(lo as int, i as int),
        decreases hi - i,
    {
        r.push(v[i]);
        i += 1;
        assert(r@ =~= v@.subrange(lo as int, i as int));
    }
    r
}

/// A `String` holding `v[lo..hi]`.
pub fn string_from_range(v: &Vec<char>, lo: usize, hi: usize) -> (r: String)
    requires
        lo <= hi <= v.len(),
    ensures
        r@ == v@.subrange(lo as int, hi as int),
{
    let w = sub_chars(v, lo, hi);
    string_from_chars(&w)
}

} // verus!

verus! {

/// The pieces of `s` between occurrences of `c` (as `str::split` with a `char` gives them).
pub open spec fn split_char(s: Seq<char>, c: char) -> Seq<Seq<char>>
    decreases s.len(),
{
    if s.len() == 0 {
        seq![Seq::<char>::empty()]
    } else {
        let rest = split_char(s.drop_last(), c);
        if s.last() == c {
            rest.push(Seq::<char>::empty())
        } else {
            rest.update(rest.len() - 1, rest.last().push(s.last()))
        }
    }
}

/// `split_char` always yields at least one piece.
pub proof fn lemma_split_char_nonempty(s: Seq<char>, c: char)
    ensures
        split_char(s, c).len() >= 1,
    decreases s.len(),
{
    if s.len() > 0 {
        lemma_split_char_nonempty(s.drop_last(), c);
    }
}

/// The character ranges of `v[lo..hi]` that `split_char` yields, as `(start, end)` pairs.
pub fn split_ranges(v: &Vec<char>, lo: usize, hi: usize, c: char) -> (r: Vec<(usize, usize)>)
    requires
        lo <= hi <= v.len(),
    ensures
        r@.len() == split_char(v@.subrange(lo as int, hi as int), c).len(),
        forall|k: int|
            0 <= k < r@.len() ==> {
                &&& lo <= (#[trigger] r@[k]).0 <= r@[k].1 <= hi
                &&& v@.subrange(r@[k].0 as int, r@[k].1 as int) == split_char(
                    v@.subrange(lo as int, hi as int),
                    c,
                )[k]
            },
{
    let mut r: Vec<(usize, usize)> = Vec::new();
    r.push((lo, lo));
    let mut i = lo;
    assert(v@.subrange(lo as int, lo as int) =~= Seq::<char>::empty());
    while i < hi
        invariant
            lo <= i <= hi <= v.len(),
            r@.len() == split_char(v@.subrange(lo as int, i as int), c).len(),
            r@.len() >= 1,
            r@.last().1 == i,
            forall|k: int|
                0 <= k < r@.len() ==> {
                    &&& lo <= (#[trigger] r@[k]).0 <= r@[k].1 <= i
                    &&& v@.subrange(r@[k].0 as int, r@[k].1 as int) == split_char(
                        v@.subrange(lo as int, i as int),
                        c,
                    )[k]
                },
        decreases hi - i,
    {
        let ghost old_r = r@;
        let ghost pre = v@.subrange(lo as int, i as int);
        let ghost next = v@.subrange(lo as int, i + 1);
        assert(next.drop_last() =~= pre);
        assert(next.last() == v@[i as int]);
        if v[i] == c {
            r.push((i + 1, i + 1));
            i += 1;
            assert forall|k: int| 0 <= k < r@.len() implies {
                &&& lo <= (#[trigger] r@[k]).0 <= r@[k].1 <= i
                &&& v@.subrange(r@[k].0 as int, r@[k].1 as int) == split_char(
                    v@.subrange(lo as int, i as int),
                    c,
                )[k]
            } by {
                if k < old_r.len() {
                    assert(r@[k] == old_r[k]);
                } else {
                    assert(v@.subrange(i as int, i as int) =~= Seq::<char>::empty());
                }
            }
        } else {
            let last = r.len() - 1;
            let (a, _b) = r[last];
            r.set(last, (a, i + 1));
            i += 1;
            assert forall|k: int| 0 <= k < r@.len() implies {
                &&& lo <= (#[trigger] r@[k]).0 <= r@[k].1 <= i
                &&& v@.subrange(r@[k].0 as int, r@[k].1 as int) == split_char(
                    v@.subrange(lo as int, i as int),
                    c,
                )[k]
            } by {
                if k < last {
                    assert(r@[k] == old_r[k]);
                } else {
                    assert(v@.subrange(a as int, i as int) =~= v@.subrange(a as int, i - 1).push(
                        v@[i - 1],
                    ));
                }
            }
        }
    }
    r
}

} // verus!

verus! {

/// `char::is_whitespace`: the Unicode `White_Space` property.
pub open spec fn is_whitespace(c: char) -> bool {
    ||| ('\u{9}' <= c && c <= '\u{d}')
    ||| c == ' '
    ||| c == '\u{85}'
    ||| c == '\u{a0}'
    ||| c == '\u{1680}'
    ||| ('\u{2000}' <= c && c <= '\u{200a}')
    ||| c == '\u{2028}'
    ||| c == '\u{2029}'
    ||| c == '\u{202f}'
    ||| c == '\u{205f}'
    ||| c == '\u{3000}'
}

fn whitespace_char(c: char) -> (r: bool)
    ensures
        r == is_whitespace(c),
{
    ('\u{9}' <= c && c <= '\u{d}') || c == ' ' || c == '\u{85}' || c == '\u{a0}' || c
        == '\u{1680}' || ('\u{2000}' <= c && c <= '\u{200a}') || c == '\u{2028}' || c
        == '\u{2029}' || c == '\u{202f}' || c == '\u{205f}' || c == '\u{3000}'
}

/// `s` without its leading whitespace.
pub open spec fn trim_start(s: Seq<char>) -> Seq<char>
    decreases s.len(),
{
    if s.len() > 0 && is_whitespace(s[0]) {
        trim_start(s.drop_first())
    } else {
        s
    }
}

/// `s` without its trailing whitespace.
pub open spec fn trim_end(s: Seq<char>) -> Seq<char>
    decreases s.len(),
{
    if s.len() > 0 && is_whitespace(s.last()) {
        trim_end(s.drop_last())
    } else {
        s
    }
}

/// `str::trim`: `s` without leading and trailing whitespace.
pub open spec fn trim(s: Seq<char>) -> Seq<char> {
    trim_end(trim_start(s))
}

/// The bounds `(a, b)` of `trim(v[lo..hi])` within `v`.
pub fn trim_range(v: &Vec<char>, lo: usize, hi: usize) -> (r: (usize, usize))
    requires
        lo <= hi <= v.len(),
    ensures
        lo <= r.0 <= r.1 <= hi,
        v@.subrange(r.0 as int, r.1 as int) == trim(v@.subrange(lo as int, hi as int)),
{
    let mut a = lo;
    while a < hi && whitespace_char(v[a])
        invariant
            lo <= a <= hi <= v.len(),
            trim_start(v@.subrange(lo as int, hi as int)) == trim_start(
                v@.subrange(a as int, hi as int),
            ),
        decreases hi - a,
    {
        assert(v@.subrange(a as int, hi as int).drop_first() =~= v@.subrange(a + 1, hi as int));
        a += 1;
    }
    let mut b = hi;
    while b > a && whitespace_char(v[b - 1])
        invariant
            lo <= a <= b <= hi <= v.len(),
            trim_end(v@.subrange(a as int, hi as int)) == trim_end(
                v@.subrange(a as int, b as int),
            ),
        decreases b - a,
    {
        assert(v@.subrange(a as int, b as int).drop_last() =~= v@.subrange(a as int, b - 1));
        b -= 1;
    }
    (a, b)
}

/// The characters of `str::trim(s)`.
pub fn trim_chars(s: &str) -> (r: Vec<char>)
    ensures
        r@ == trim(s@),
{
    let v = chars_of(s);
    let (a, b) = trim_range(&v, 0, v.len());
    assert(v@.subrange(0, v@.len() as int) =~= v@);
    sub_chars(&v, a, b)
}

} // verus!

verus! {

/// `s` without one trailing carriage return.
pub open spec fn strip_cr(s: Seq<char>) -> Seq<char> {
    if s.len() > 0 && s.last() == '\r' {
        s.drop_last()
    } else {
        s
    }
}

/// `str::lines`: the lines of `s`, split at `\n` (a `\r` before the `\n` is dropped),
/// with no empty line after a final `\n`.
pub open spec fn lines(s: Seq<char>) -> Seq<Seq<char>> {
    let p = split_char(s, '\n');
    let q = if p.last().len() == 0 {
        p.drop_last()
    } else {
        p
    };
    Seq::new(q.len(), |i: int| if i < p.len() - 1 { strip_cr(q[i]) } else { q[i] })
}

/// `xs` written one per line, each followed by `\n`.
pub open spec fn join_lines(xs: Seq<Seq<char>>) -> Seq<char>
    decreases xs.len(),
{
    if xs.len() == 0 {
        Seq::empty()
    } else {
        join_lines(xs.drop_last()) + xs.last() + seq!['\n']
    }
}

/// A line holding neither `\n` nor `\r`.
pub open spec fn plain_line(x: Seq<char>) -> bool {
    !x.contains('\n') && !x.contains('\r')
}

/// Every piece of `split_char(s, c)` is free of `c` and made of characters of `s`.
pub proof fn lemma_split_pieces(s: Seq<char>, c: char)
    ensures
        forall|k: int, j: int|
            0 <= k < split_char(s, c).len() && 0 <= j < split_char(s, c)[k].len() ==> {
                &&& #[trigger] split_char(s, c)[k][j] != c
                &&& s.contains(split_char(s, c)[k][j])
            },
    decreases s.len(),
{
    if s.len() > 0 {
        let d = s.drop_last();
        let rest = split_char(d, c);
        lemma_split_pieces(d, c);
        lemma_split_char_nonempty(d, c);
        let p = split_char(s, c);
        assert forall|k: int, j: int| 0 <= k < p.len() && 0 <= j < p[k].len() implies {
            &&& #[trigger] p[k][j] != c
            &&& s.contains(p[k][j])
        } by {
            if k < rest.len() && !(s.last() != c && k == rest.len() - 1 && j == rest.last().len()) {
                assert(p[k][j] == rest[k][j]);
                let x = rest[k][j];
                assert(d.contains(x));
                let i = choose|i: int| 0 <= i < d.len() && d[i] == x;
                assert(s[i] == x);
            } else {
                assert(p[k][j] == s.last());
                assert(s[s.len() - 1] == s.last());
            }
        }
    }
}

/// Splitting `s + t` where `t` holds no `c` extends the last piece of `s` by `t`.
pub proof fn lemma_split_append_plain(s: Seq<char>, t: Seq<char>, c: char)
    requires
        !t.contains(c),
    ensures
        split_char(s + t, c) == split_char(s, c).update(
            split_char(s, c).len() - 1,
            split_char(s, c).last() + t,
        ),
    decreases t.len(),
{
    lemma_split_char_nonempty(s, c);
    let p = split_char(s, c);
    if t.len() == 0 {
        assert(s + t =~= s);
        assert(p.update(p.len() - 1, p.last() + t) =~= p);
    } else {
        let t1 = t.drop_last();
        assert(!t1.contains(c)) by {
            if t1.contains(c) {
                let i = choose|i: int| 0 <= i < t1.len() && t1[i] == c;
                assert(t[i] == c);
            }
        }
        lemma_split_append_plain(s, t1, c);
        assert((s + t).drop_last() =~= s + t1);
        assert((s + t).last() == t.last());
        assert(t.last() != c) by {
            assert(t[t.len() - 1] == t.last());
        }
        let rest = split_char(s + t1, c);
        assert(split_char(s + t, c) == rest.update(rest.len() - 1, rest.last().push(t.last())));
        assert(rest.last() == p.last() + t1);
        assert((p.last() + t1).push(t.last()) =~= p.last() + t);
        assert(split_char(s + t, c) =~= p.update(p.len() - 1, p.last() + t));
    }
}

/// Splitting lines joined with `\n` at `\n` gives them back, then an empty piece.
pub proof fn lemma_split_join(xs: Seq<Seq<char>>)
    requires
        forall|i: int| 0 <= i < xs.len() ==> !(#[trigger] xs[i]).contains('\n'),
    ensures
        split_char(join_lines(xs), '\n') == xs.push(Seq::<char>::empty()),
    decreases xs.len(),
{
    if xs.len() == 0 {
        assert(split_char(Seq::<char>::empty(), '\n') =~= seq![Seq::<char>::empty()]);
        assert(xs.push(Seq::<char>::empty()) =~= seq![Seq::<char>::empty()]);
    } else {
        let ys = xs.drop_last();
        let x = xs.last();
        assert forall|i: int| 0 <= i < ys.len() implies !(#[trigger] ys[i]).contains('\n') by {
            assert(ys[i] == xs[i]);
        }
        lemma_split_join(ys);
        assert(!x.contains('\n')) by {
            assert(xs[xs.len() - 1] == x);
        }
        lemma_split_append_plain(join_lines(ys), x, '\n');
        let j = join_lines(ys) + x;
        assert(join_lines(xs) == j.push('\n')) by {
            assert(j + seq!['\n'] =~= j.push('\n'));
        }
        assert(j.push('\n').drop_last() =~= j);
        let py = ys.push(Seq::<char>::empty());
        assert(py.update(py.len() - 1, py.last() + x) =~= ys.push(x));
        assert(ys.push(x) =~= xs);
    }
}

/// The lines of `join_lines(xs)` are `xs`, when no line holds `\n` or `\r`.
pub proof fn lemma_lines_join(xs: Seq<Seq<char>>)
    requires
        forall|i: int| 0 <= i < xs.len() ==> plain_line(#[trigger] xs[i]),
    ensures
        lines(join_lines(xs)) == xs,
{
    assert forall|i: int| 0 <= i < xs.len() implies !(#[trigger] xs[i]).contains('\n') by {
        assert(plain_line(xs[i]));
    }
    lemma_split_join(xs);
    let p = split_char(join_lines(xs), '\n');
    let q = p.drop_last();
    assert(q =~= xs);
    assert forall|i: int| 0 <= i < xs.len() implies strip_cr(#[trigger] q[i]) == xs[i] by {
        assert(plain_line(xs[i]));
        if xs[i].len() > 0 && xs[i].last() == '\r' {
            assert(xs[i][xs[i].len() - 1] == '\r');
        }
    }
    assert(lines(join_lines(xs)) =~= xs);
}

/// The lines of a text without `\r` hold neither `\n` nor `\r`.
pub proof fn lemma_lines_plain(s: Seq<char>)
    requires
        !s.contains('\r'),
    ensures
        forall|i: int| 0 <= i < lines(s).len() ==> plain_line(#[trigger] lines(s)[i]),
{
    lemma_split_pieces(s, '\n');
    lemma_split_char_nonempty(s, '\n');
    let p = split_char(s, '\n');
    let l = lines(s);
    assert forall|i: int| 0 <= i < l.len() implies plain_line(#[trigger] l[i]) by {
        assert(i < p.len());
        let x = p[i];
        assert(l[i] == strip_cr(x) || l[i] == x);
        assert(l[i].len() <= x.len());
        assert forall|j: int| 0 <= j < l[i].len() implies l[i][j] != '\n' && l[i][j] != '\r' by {
            assert(l[i][j] == x[j]);
            assert(split_char(s, '\n')[i][j] != '\n');
            assert(s.contains(split_char(s, '\n')[i][j]));
        }
    }
}

/// Joining the lines `xs + ys` joins `xs`, then `ys`.
pub proof fn lemma_join_append(xs: Seq<Seq<char>>, ys: Seq<Seq<char>>)
    ensures
        join_lines(xs + ys) == join_lines(xs) + join_lines(ys),
    decreases ys.len(),
{
    if ys.len() == 0 {
        assert(xs + ys =~= xs);
        assert(join_lines(xs) + join_lines(ys) =~= join_lines(xs));
    } else {
        lemma_join_append(xs, ys.drop_last());
        assert((xs + ys).drop_last() =~= xs + ys.drop_last());
        assert((xs + ys).last() == ys.last());
        assert(join_lines(xs + ys) =~= join_lines(xs) + join_lines(ys));
    }
}

/// The character ranges of `v` that hold its lines (see [`lines`]).
pub fn line_ranges(v: &Vec<char>) -> (r: Vec<(usize, usize)>)
    ensures
        r@.len() == lines(v@).len(),
        forall|k: int|
            0 <= k < r@.len() ==> {
                &&& (#[trigger] r@[k]).0 <= r@[k].1 <= v@.len()
                &&& v@.subrange(r@[k].0 as int, r@[k].1 as int) == lines(v@)[k]
            },
{
    let parts = split_ranges(v, 0, v.len(), '\n');
    let ghost p = split_char(v@, '\n');
    assert(v@.subrange(0, v@.len() as int) =~= v@);
    proof {
        lemma_split_char_nonempty(v@, '\n');
    }
    let (la, lb) = parts[parts.len() - 1];
    let n = if la == lb { parts.len() - 1 } else { parts.len() };
    assert(p.last() == v@.subrange(la as int, lb as int));
    let mut r: Vec<(usize, usize)> = Vec::new();
    let mut i: usize = 0;
    while i < n
        invariant
            i <= n <= parts@.len(),
            parts@.len() == p.len(),
            p == split_char(v@, '\n'),
            n == lines(v@).len(),
            r@.len() == i,
            forall|k: int|
                0 <= k < parts@.len() ==> {
                    &&& (#[trigger] parts@[k]).0 <= parts@[k].1 <= v@.len()
                    &&& v@.subrange(parts@[k].0 as int, parts@[k].1 as int) == p[k]
                },
            forall|k: int|
                0 <= k < i ==> {
                    &&& (#[trigger] r@[k]).0 <= r@[k].1 <= v@.len()
                    &&& v@.subrange(r@[k].0 as int, r@[k].1 as int) == lines(v@)[k]
                },
        decreases n - i,
    {
        let (a, b) = parts[i];
        let ghost pk = p[i as int];
        if i + 1 < parts.len() && b > a && v[b - 1] == '\r' {
            assert(v@.subrange(a as int, b - 1) =~= pk.drop_last());
            r.push((a, b - 1));
        } else {
            r.push((a, b));
        }
        i += 1;
    }
    r
}

/// `c` lowered by `char::to_ascii_lowercase`, as a code point.
pub open spec fn ascii_lower_code(c: char) -> u32 {
    if 'A' <= c && c <= 'Z' {
        (c as u32 + 32) as u32
    } else {
        c as u32
    }
}

/// `str::eq_ignore_ascii_case`.
pub open spec fn eq_ignore_ascii_case(a: Seq<char>, b: Seq<char>) -> bool {
    a.len() == b.len() && forall|i: int| 0 <= i < a.len() ==> ascii_lower_code(a[i])
        == ascii_lower_code(b[i])
}

fn lower_code(c: char) -> (r: u32)
    ensures
        r == ascii_lower_code(c),
{
    if 'A' <= c && c <= 'Z' {
        c as u32 + 32
    } else {
        c as u32
    }
}

/// Whether `v[lo..hi]` equals `w` ignoring ASCII case.
pub fn range_eq_ignore_ascii_case(v: &Vec<char>, lo: usize, hi: usize, w: &Vec<char>) -> (r: bool)
    requires
        lo <= hi <= v.len(),
    ensures
        r == eq_ignore_ascii_case(v@.subrange(lo as int, hi as int), w@),
{
    let ghost s = v@.subrange(lo as int, hi as int);
    if hi - lo != w.len() {
        return false;
    }
    let mut i: usize = 0;
    while i < w.len()
        invariant
            i <= w.len(),
            hi - lo == w.len(),
            lo <= hi <= v.len(),
            s == v@.subrange(lo as int, hi as int),
            forall|k: int| 0 <= k < i ==> ascii_lower_code(s[k]) == ascii_lower_code(w@[k]),
        decreases w.len() - i,
    {
        if lower_code(v[lo + i]) != lower_code(w[i]) {
            assert(s[i as int] == v@[lo + i]);
            return false;
        }
        i += 1;
    }
    true
}

/// Appends `w[lo..hi]` to `v`.
pub fn extend_range(v: &mut Vec<char>, w: &Vec<char>, lo: usize, hi: usize)
    requires
        lo <= hi <= w.len(),
    ensures
        final(v)@ == old(v)@ + w@.subrange(lo as int, hi as int),
{
    let mut i = lo;
    while i < hi
        invariant
            lo <= i <= hi <= w.len(),
            v@ == old(v)@ + w@.subrange(lo as int, i as int),
        decreases hi - i,
    {
        v.push(w[i]);
        i += 1;
        assert(v@ =~= old(v)@ + w@.subrange(lo as int, i as int));
    }
}

} // verus!

verus! {

/// The first position at or after `k` where `p` occurs in `s`.
pub open spec fn find_from(s: Seq<char>, p: Seq<char>, k: int) -> Option<int>
    decreases s.len() + 1 - k,
{
    if k < 0 || k + p.len() > s.len() {
        None
    } else if s.subrange(k, k + p.len()) == p {
        Some(k)
    } else {
        find_from(s, p, k + 1)
    }
}

/// `str::find`: the first position where `p` occurs in `s`.
pub open spec fn find_sub(s: Seq<char>, p: Seq<char>) -> Option<int> {
    find_from(s, p, 0)
}

/// A found position lies within `s`.
pub proof fn lemma_find_from_bounds(s: Seq<char>, p: Seq<char>, k: int)
    ensures
        find_from(s, p, k) matches Some(j) ==> k <= j && 0 <= j && j + p.len() <= s.len()
            && s.subrange(j, j + p.len()) == p,
    decreases s.len() + 1 - k,
{
    if !(k < 0 || k + p.len() > s.len()) && s.subrange(k, k + p.len()) != p {
        lemma_find_from_bounds(s, p, k + 1);
    }
}

/// The first position in `v[lo..hi]` where `w` occurs, as an offset from `lo`.
pub fn find_in_range(v: &Vec<char>, lo: usize, hi: usize, w: &Vec<char>) -> (r: Option<usize>)
    requires
        lo <= hi <= v.len(),
    ensures
        match find_sub(v@.subrange(lo as int, hi as int), w@) {
            Some(j) => r == Some(j as usize),
            None => r is None,
        },
{
    let ghost s = v@.subrange(lo as int, hi as int);
    if w.len() > hi - lo {
        return None;
    }
    let limit = hi - lo - w.len();
    let mut k: usize = 0;
    while k <= limit
        invariant
            lo <= hi <= v.len(),
            w.len() <= hi - lo,
            limit == hi - lo - w.len(),
            k <= limit + 1,
            s == v@.subrange(lo as int, hi as int),
            find_sub(s, w@) == find_from(s, w@, k as int),
        decreases limit + 1 - k,
    {
        assert(s.subrange(k as int, k + w@.len()) =~= v@.subrange(lo + k, lo + k + w@.len()));
        if range_eq(v, lo + k, lo + k + w.len(), w) {
            return Some(k);
        }
        if k == limit {
            assert(find_from(s, w@, k + 1) is None);
            return None;
        }
        k += 1;
    }
    None
}

/// `s` up to the first occurrence of `p` (all of `s` if `p` does not occur):
/// the first piece of `str::split(p)`.
pub open spec fn before_first(s: Seq<char>, p: Seq<char>) -> Seq<char> {
    match find_sub(s, p) {
        Some(k) => s.take(k),
        None => s,
    }
}

} // verus!

verus! {

/// Splitting on whitespace, scanning `s` with the word `cur` under way and the
/// words `acc` found so far.
pub open spec fn words_acc(s: Seq<char>, cur: Seq<char>, acc: Seq<Seq<char>>) -> Seq<Seq<char>>
    decreases s.len(),
{
    if s.len() == 0 {
        if cur.len() > 0 { acc.push(cur) } else { acc }
    } else if is_whitespace(s[0]) {
        words_acc(s.drop_first(), Seq::empty(), if cur.len() > 0 { acc.push(cur) } else { acc })
    } else {
        words_acc(s.drop_first(), cur.push(s[0]), acc)
    }
}

/// `str::split_whitespace`: the maximal runs of non-whitespace characters of `s`.
pub open spec fn words(s: Seq<char>) -> Seq<Seq<char>> {
    words_acc(s, Seq::empty(), Seq::empty())
}

/// The words (see [`words`]) of the characters `v[lo..hi]`.
pub fn split_whitespace_range(v: &Vec<char>, lo: usize, hi: usize) -> (r: Vec<Vec<char>>)
    requires
        lo <= hi <= v.len(),
    ensures
        r@.map_values(|w: Vec<char>| w@) == words(v@.subrange(lo as int, hi as int)),
{
    let mut acc: Vec<Vec<char>> = Vec::new();
    let mut cur: Vec<char> = Vec::new();
    let mut i = lo;
    assert(acc@.map_values(|w: Vec<char>| w@) =~= Seq::<Seq<char>>::empty());
    assert(cur@ =~= Seq::<char>::empty());
    while i < hi
        invariant
            lo <= i <= hi <= v.len(),
            words(v@.subrange(lo as int, hi as int)) == words_acc(
                v@.subrange(i as int, hi as int),
                cur@,
                acc@.map_values(|w: Vec<char>| w@),
            ),
        decreases hi - i,
    {
        let ghost s = v@.subrange(i as int, hi as int);
        assert(s.drop_first() =~= v@.subrange(i + 1, hi as int));
        assert(s[0] == v@[i as int]);
        if whitespace_char(v[i]) {
            if cur.len() > 0 {
                let ghost before = acc@.map_values(|w: Vec<char>| w@);
                let ghost c = cur@;
                let mut done: Vec<char> = Vec::new();
                std::mem::swap(&mut done, &mut cur);
                acc.push(done);
                assert(acc@.map_values(|w: Vec<char>| w@) =~= before.push(c));
            }
            assert(cur@ =~= Seq::<char>::empty());
        } else {
            cur.push(v[i]);
        }
        i += 1;
    }
    if cur.len() > 0 {
        let ghost before = acc@.map_values(|w: Vec<char>| w@);
        let ghost c = cur@;
        acc.push(cur);
        assert(acc@.map_values(|w: Vec<char>| w@) =~= before.push(c));
    }
    acc
}

} // verus!
