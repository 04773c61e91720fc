//! Line-oriented `key: value` text as the kernel exports it, over bytes.
use vstd::prelude::*;
use vstd::string::StringSliceAdditionalSpecFns;

verus! {

pub const NEWLINE: u8 = 10;

pub const COLON: u8 = 58;

/// ASCII whitespace within a line: space, tab, form feed, carriage return.
pub open spec fn is_space(b: u8) -> bool {
    b == 32 || b == 9 || b == 12 || b == 13
}

pub fn is_blank(b: u8) -> (r: bool)
    ensures
        r == is_space(b),
{
    b == 32 || b == 9 || b == 12 || b == 13
}

pub open spec fn is_digit(b: u8) -> bool {
    48 <= b <= 57
}

/// Length of the first line of `s`, without its newline.
pub open spec fn line_len(s: Seq<u8>) -> nat
    decreases s.len(),
{
    if s.len() == 0 || s[0] == NEWLINE {
        0
    } else {
        1 + line_len(s.drop_first())
    }
}

/// The lines of `s`; a final newline does not start an empty line.
pub open spec fn lines_of(s: Seq<u8>) -> Seq<Seq<u8>>
    decreases s.len(),
{
    if s.len() == 0 {
        seq![]
    } else {
        let n = line_len(s);
        if n < s.len() {
            seq![s.take(n as int)] + lines_of(s.skip(n as int + 1))
        } else {
            seq![s]
        }
    }
}

/// The bytes that each range of `r` selects from `s`.
pub open spec fn slices_of(r: Seq<(usize, usize)>, s: Seq<u8>) -> Seq<Seq<u8>> {
    r.map_values(|p: (usize, usize)| s.subrange(p.0 as int, p.1 as int))
}

pub open spec fn ranges_valid(r: Seq<(usize, usize)>, len: int) -> bool {
    forall|i: int| 0 <= i < r.len() ==> #[trigger] r[i].0 <= r[i].1 && r[i].1 <= len
}

proof fn lemma_line_len_step(s: Seq<u8>, j: int)
    requires
        0 <= j < s.len(),
        s[j] != NEWLINE,
    ensures
        line_len(s.skip(j)) == 1 + line_len(s.skip(j + 1)),
{
    assert(s.skip(j).drop_first() =~= s.skip(j + 1));
}

/// Splits `s` into lines, as ranges of positions.
pub fn split_lines(s: &[u8]) -> (r: Vec<(usize, usize)>)
    ensures
        ranges_valid(r@, s@.len() as int),
        slices_of(r@, s@) == lines_of(s@),
{
    let mut out: Vec<(usize, usize)> = Vec::new();
    let mut start: usize = 0;
    assert(s@.skip(0) =~= s@);
    while start < s.len()
        invariant
            start <= s.len(),
            ranges_valid(out@, s@.len() as int),
            lines_of(s@) == slices_of(out@, s@) + lines_of(s@.skip(start as int)),
        decreases s.len() - start,
    {
        let mut j: usize = start;
        while j < s.len() && s[j] != NEWLINE
            invariant
                start <= j <= s.len(),
                line_len(s@.skip(start as int)) == (j - start) + line_len(s@.skip(j as int)),
            decreases s.len() - j,
        {
            proof {
                lemma_line_len_step(s@, j as int);
            }
            j += 1;
        }
        let ghost rest = s@.skip(start as int);
        assert(line_len(s@.skip(j as int)) == 0);
        assert(rest.take(j - start) =~= s@.subrange(start as int, j as int));
        let ghost old_out = out@;
        out.push((start, j));
        assert(slices_of(out@, s@) =~= slices_of(old_out, s@) + seq![
            s@.subrange(start as int, j as int),
        ]);
        if j < s.len() {
            assert(rest.skip(j - start + 1) =~= s@.skip(j + 1));
            start = j + 1;
        } else {
            assert(rest =~= s@.subrange(start as int, j as int));
            assert(s@.skip(j as int) =~= Seq::<u8>::empty());
            start = j;
        }
    }
    assert(s@.skip(start as int) =~= Seq::<u8>::empty());
    assert(lines_of(s@) =~= slices_of(out@, s@));
    out
}

/// `s` without leading blanks.
pub open spec fn trim_start(s: Seq<u8>) -> Seq<u8>
    decreases s.len(),
{
    if s.len() > 0 && is_space(s[0]) {
        trim_start(s.drop_first())
    } else {
        s
    }
}

/// `s` without trailing blanks.
pub open spec fn trim_end(s: Seq<u8>) -> Seq<u8>
    decreases s.len(),
{
    if s.len() > 0 && is_space(s.last()) {
        trim_end(s.drop_last())
    } else {
        s
    }
}

pub open spec fn trim(s: Seq<u8>) -> Seq<u8> {
    trim_end(trim_start(s))
}

/// The range of `s[a..b]` that remains once blanks are trimmed from both ends.
pub fn trim_range(s: &[u8], a: usize, b: usize) -> (r: (usize, usize))
    requires
        a <= b <= s@.len(),
    ensures
        a <= r.0 <= r.1 <= b,
        s@.subrange(r.0 as int, r.1 as int) == trim(s@.subrange(a as int, b as int)),
{
    let mut i: usize = a;
    while i < b && is_blank(s[i])
        invariant
            a <= i <= b,
            b <= s@.len(),
            trim_start(s@.subrange(a as int, b as int)) == trim_start(s@.subrange(i as int, b as int)),
        decreases b - i,
    {
        assert(s@.subrange(i as int, b as int).drop_first() =~= s@.subrange(i + 1, b as int));
        i += 1;
    }
    let mut j: usize = b;
    while j > i && is_blank(s[j - 1])
        invariant
            i <= j <= b,
            b <= s@.len(),
            trim_end(s@.subrange(i as int, b as int)) == trim_end(s@.subrange(i as int, j as int)),
        decreases j - i,
    {
        assert(s@.subrange(i as int, j as int).drop_last() =~= s@.subrange(i as int, j - 1));
        j -= 1;
    }
    (i, j)
}

/// Position of the first colon in `l`.
pub open spec fn colon_index(l: Seq<u8>) -> Option<int>
    decreases l.len(),
{
    if l.len() == 0 {
        None
    } else if l[0] == COLON {
        Some(0)
    } else {
        match colon_index(l.drop_first()) {
            None => None,
            Some(i) => Some(i + 1),
        }
    }
}

/// Finds the first colon in `s[a..b]`, as a position in `s`.
pub fn find_colon(s: &[u8], a: usize, b: usize) -> (r: Option<usize>)
    requires
        a <= b <= s@.len(),
    ensures
        match colon_index(s@.subrange(a as int, b as int)) {
            None => r is None,
            Some(c) => r is Some && r.unwrap() == a + c,
        },
        r is Some ==> a <= r.unwrap() < b,
{
    let mut i: usize = a;
    while i < b
        invariant
            a <= i <= b,
            b <= s@.len(),
            colon_index(s@.subrange(a as int, b as int)) == match colon_index(
                s@.subrange(i as int, b as int),
            ) {
                None => None,
                Some(c) => Some(c + (i - a)),
            },
        decreases b - i,
    {
        assert(s@.subrange(i as int, b as int).drop_first() =~= s@.subrange(i + 1, b as int));
        if s[i] == COLON {
            return Some(i);
        }
        i += 1;
    }
    None
}

/// The key of a `key: value` line.
pub open spec fn key_of(l: Seq<u8>) -> Option<Seq<u8>> {
    match colon_index(l) {
        None => None,
        Some(c) => Some(l.take(c)),
    }
}

/// The value of a `key: value` line, without surrounding blanks.
pub open spec fn value_of(l: Seq<u8>) -> Seq<u8> {
    match colon_index(l) {
        None => seq![],
        Some(c) => trim(l.skip(c + 1)),
    }
}

/// The value of the first line of `ls` whose key is `key`.
pub open spec fn find_value(ls: Seq<Seq<u8>>, key: Seq<u8>) -> Option<Seq<u8>>
    decreases ls.len(),
{
    if ls.len() == 0 {
        None
    } else if key_of(ls[0]) == Some(key) {
        Some(value_of(ls[0]))
    } else {
        find_value(ls.drop_first(), key)
    }
}

/// Number of leading decimal digits of `s`.
pub open spec fn digit_count(s: Seq<u8>) -> nat
    decreases s.len(),
{
    if s.len() > 0 && is_digit(s[0]) {
        1 + digit_count(s.drop_first())
    } else {
        0
    }
}

/// The number that a string of decimal digits writes.
pub open spec fn digits_value(d: Seq<u8>) -> nat
    decreases d.len(),
{
    if d.len() == 0 {
        0
    } else {
        digits_value(d.drop_last()) * 10 + (d.last() - 48) as nat
    }
}

/// A value of the form `<digits>` or `<digits> <unit>`: the number and the unit.
pub open spec fn quantity(v: Seq<u8>) -> Option<(nat, Seq<u8>)> {
    let k = digit_count(v);
    if k == 0 {
        None
    } else {
        Some((digits_value(v.take(k as int)), trim_start(v.skip(k as int))))
    }
}

proof fn lemma_digits_value_grows(d: Seq<u8>, i: int)
    requires
        0 <= i <= d.len(),
        forall|k: int| 0 <= k < d.len() ==> is_digit(#[trigger] d[k]),
    ensures
        digits_value(d.take(i)) <= digits_value(d),
    decreases d.len(),
{
    if i < d.len() {
        assert(d.drop_last().take(i) =~= d.take(i));
        lemma_digits_value_grows(d.drop_last(), i);
    } else {
        assert(d.take(i) =~= d);
    }
}

/// Reads `s[a..b]` as a quantity: its number (when it fits in 64 bits) and
/// the position where its unit starts.
pub fn parse_quantity(s: &[u8], a: usize, b: usize) -> (r: Option<(u64, usize)>)
    requires
        a <= b <= s@.len(),
    ensures
        match quantity(s@.subrange(a as int, b as int)) {
            None => r is None,
            Some((n, unit)) => if n <= u64::MAX {
                &&& r is Some
                &&& r.unwrap().0 == n
                &&& a <= r.unwrap().1 <= b
                &&& s@.subrange(r.unwrap().1 as int, b as int) == unit
            } else {
                r is None
            },
        },
{
    let ghost v = s@.subrange(a as int, b as int);
    let mut i: usize = a;
    while i < b && 48 <= s[i] && s[i] <= 57
        invariant
            a <= i <= b,
            b <= s@.len(),
            v == s@.subrange(a as int, b as int),
            digit_count(v) == (i - a) + digit_count(s@.subrange(i as int, b as int)),
            forall|k: int| a <= k < i ==> is_digit(#[trigger] s@[k]),
        decreases b - i,
    {
        assert(s@.subrange(i as int, b as int).drop_first() =~= s@.subrange(i + 1, b as int));
        i += 1;
    }
    assert(digit_count(s@.subrange(i as int, b as int)) == 0);
    let k: usize = i;
    if k == a {
        return None;
    }
    let ghost digits = v.take(k - a);
    assert(digits =~= s@.subrange(a as int, k as int));
    let mut value: u64 = 0;
    let mut j: usize = a;
    while j < k
        invariant
            a <= j <= k,
            k <= b <= s@.len(),
            digits == s@.subrange(a as int, k as int),
            v == s@.subrange(a as int, b as int),
            digits == v.take(k - a),
            digit_count(v) == k - a,
            forall|x: int| a <= x < k ==> is_digit(#[trigger] s@[x]),
            value == digits_value(s@.subrange(a as int, j as int)),
        decreases k - j,
    {
        assert(s@.subrange(a as int, j + 1).drop_last() =~= s@.subrange(a as int, j as int));
        let d: u64 = (s[j] - 48) as u64;
        proof {
            assert(digits.take(j + 1 - a) =~= s@.subrange(a as int, j + 1));
            assert forall|x: int| 0 <= x < digits.len() implies is_digit(#[trigger] digits[x]) by {
                assert(digits[x] == s@[a + x]);
            }
            lemma_digits_value_grows(digits, j + 1 - a);
            assert(digits_value(s@.subrange(a as int, j + 1)) == value * 10 + d);
        }
        match value.checked_mul(10) {
            None => {
                return None;
            },
            Some(m) => match m.checked_add(d) {
                None => {
                    return None;
                },
                Some(n) => {
                    value = n;
                },
            },
        }
        j += 1;
    }
    let mut u: usize = k;
    while u < b && is_blank(s[u])
        invariant
            k <= u <= b,
            b <= s@.len(),
            trim_start(s@.subrange(k as int, b as int)) == trim_start(s@.subrange(u as int, b as int)),
        decreases b - u,
    {
        assert(s@.subrange(u as int, b as int).drop_first() =~= s@.subrange(u + 1, b as int));
        u += 1;
    }
    assert(v.skip(k - a) =~= s@.subrange(k as int, b as int));
    Some((value, u))
}

/// A bare number.
pub open spec fn plain_value(v: Seq<u8>) -> Option<u64> {
    match quantity(v) {
        Some((n, unit)) => if unit.len() == 0 && n <= u64::MAX {
            Some(n as u64)
        } else {
            None
        },
        None => None,
    }
}

/// Reads `s[a..b]` as a bare number.
pub fn parse_plain(s: &[u8], a: usize, b: usize) -> (r: Option<u64>)
    requires
        a <= b <= s@.len(),
    ensures
        r == plain_value(s@.subrange(a as int, b as int)),
{
    match parse_quantity(s, a, b) {
        Some((n, u)) => if u == b {
            assert(s@.subrange(u as int, b as int) =~= Seq::<u8>::empty());
            Some(n)
        } else {
            None
        },
        None => None,
    }
}

/// Reads the contents of a numeric attribute file: one number, with
/// blanks and a final newline around it.
pub fn parse_attribute(contents: &str) -> (r: Option<u64>)
    ensures
        r == plain_value(trim(without_newline(contents.spec_bytes()))),
{
    let s = contents.as_bytes();
    let end: usize = if s.len() > 0 && s[s.len() - 1] == NEWLINE {
        s.len() - 1
    } else {
        s.len()
    };
    assert(s@.subrange(0, end as int) =~= without_newline(s@));
    let (a, b) = trim_range(s, 0, end);
    parse_plain(s, a, b)
}

/// `s` without one final newline.
pub open spec fn without_newline(s: Seq<u8>) -> Seq<u8> {
    if s.len() > 0 && s.last() == NEWLINE {
        s.drop_last()
    } else {
        s
    }
}

} // verus!
