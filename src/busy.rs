//! The busy-time counter in the i915 `rps_boost` debug file.
use vstd::prelude::*;
use vstd::string::StringSliceAdditionalSpecFns;
use crate::text::{parse_plain, plain_value, is_blank, is_space, lines_of, ranges_valid, slices_of, split_lines, trim_end};

verus! {

/// Rest of the first line of `ls` that starts with `p`.
pub open spec fn rest_after_prefix(ls: Seq<Seq<u8>>, p: Seq<u8>) -> Option<Seq<u8>>
    decreases ls.len(),
{
    if ls.len() == 0 {
        None
    } else if p.len() <= ls[0].len() && ls[0].take(p.len() as int) == p {
        Some(ls[0].skip(p.len() as int))
    } else {
        rest_after_prefix(ls.drop_first(), p)
    }
}

/// Length of the run of non-blank bytes at the end of `t`.
pub open spec fn token_len(t: Seq<u8>) -> nat
    decreases t.len(),
{
    if t.len() == 0 || is_space(t.last()) {
        0
    } else {
        1 + token_len(t.drop_last())
    }
}

/// The last blank-separated word of `s`.
pub open spec fn last_word(s: Seq<u8>) -> Seq<u8> {
    let t = trim_end(s);
    t.skip(t.len() - token_len(t))
}

/// "ms"
pub open spec fn unit_ms() -> Seq<u8> {
    seq![109u8, 115u8]
}

/// A word of the form `<digits>ms`, as the number.
pub open spec fn ms_value(w: Seq<u8>) -> Option<u64> {
    if w.len() >= 2 && w.skip(w.len() - 2) == unit_ms() {
        plain_value(w.take(w.len() - 2))
    } else {
        None
    }
}

/// The busy time that the file reports: the last word of its first
/// `GPU busy?` line, read as milliseconds.
pub open spec fn gpu_busy_ms_of(data: Seq<u8>) -> Option<u64> {
    match rest_after_prefix(lines_of(data), "GPU busy?".spec_bytes()) {
        Some(rest) => ms_value(last_word(rest)),
        None => None,
    }
}

proof fn lemma_token_len_bound(t: Seq<u8>)
    ensures
        token_len(t) <= t.len(),
    decreases t.len(),
{
    if t.len() > 0 {
        lemma_token_len_bound(t.drop_last());
    }
}

/// Reads the busy time, in milliseconds, from the `rps_boost` file.
pub fn parse_gpu_busy_ms(data: &str) -> (r: Option<u64>)
    ensures
        r == gpu_busy_ms_of(data.spec_bytes()),
{
    let s = data.as_bytes();
    let lines = split_lines(s);
    let p = "GPU busy?".as_bytes();
    let ghost ls = slices_of(lines@, s@);
    let mut i: usize = 0;
    assert(ls.skip(0) =~= ls);
    while i < lines.len()
        invariant
            i <= lines@.len(),
            ranges_valid(lines@, s@.len() as int),
            ls == slices_of(lines@, s@),
            ls == lines_of(data.spec_bytes()),
            p@ == "GPU busy?".spec_bytes(),
            rest_after_prefix(ls, p@) == rest_after_prefix(ls.skip(i as int), p@),
        decreases lines.len() - i,
    {
        let (a, b) = lines[i];
        let ghost l = s@.subrange(a as int, b as int);
        assert(ls.skip(i as int)[0] == l);
        assert(ls.skip(i as int).drop_first() =~= ls.skip(i + 1));
        assert(a <= b <= s@.len());
        if b - a >= p.len() && starts_with_at(s, a, p) {
            assert(l.take(p@.len() as int) =~= s@.subrange(a as int, a + p@.len()));
            assert(l.skip(p@.len() as int) =~= s@.subrange(a + p@.len(), b as int));
            assert(rest_after_prefix(ls.skip(i as int), p@) == Some(l.skip(p@.len() as int)));
            assert(ls == lines_of(data.spec_bytes()));
            return word_ms_value(s, a + p.len(), b);
        }
        proof {
            if p@.len() <= l.len() && l.take(p@.len() as int) == p@ {
                assert(l.take(p@.len() as int) =~= s@.subrange(a as int, a + p@.len()));
            }
        }
        i += 1;
    }
    assert(ls.skip(i as int) =~= Seq::<Seq<u8>>::empty());
    None
}

/// Whether `s` holds `p` from position `a` on.
fn starts_with_at(s: &[u8], a: usize, p: &[u8]) -> (r: bool)
    requires
        a + p@.len() <= s@.len(),
        a + p@.len() <= usize::MAX,
    ensures
        r == (s@.subrange(a as int, a + p@.len()) == p@),
{
    let mut i: usize = 0;
    while i < p.len()
        invariant
            i <= p@.len(),
            a + p@.len() <= s@.len(),
            a + p@.len() <= usize::MAX,
            forall|k: int| 0 <= k < i ==> s@[a + k] == #[trigger] p@[k],
        decreases p.len() - i,
    {
        if s[a + i] != p[i] {
            assert(s@.subrange(a as int, a + p@.len())[i as int] != p@[i as int]);
            return false;
        }
        i += 1;
    }
    assert(s@.subrange(a as int, a + p@.len()) =~= p@);
    true
}

/// The last word of `s[a..b]`, read as milliseconds.
fn word_ms_value(s: &[u8], a: usize, b: usize) -> (r: Option<u64>)
    requires
        a <= b <= s@.len(),
    ensures
        r == ms_value(last_word(s@.subrange(a as int, b as int))),
{
    let mut j: usize = b;
    while j > a && is_blank(s[j - 1])
        invariant
            a <= j <= b,
            b <= s@.len(),
            trim_end(s@.subrange(a as int, b as int)) == trim_end(s@.subrange(a as int, j as int)),
        decreases j - a,
    {
        assert(s@.subrange(a as int, j as int).drop_last() =~= s@.subrange(a as int, j - 1));
        j -= 1;
    }
    let ghost t = s@.subrange(a as int, j as int);
    assert(trim_end(t) == t);
    let mut k: usize = j;
    while k > a && !is_blank(s[k - 1])
        invariant
            a <= k <= j,
            j <= b <= s@.len(),
            t == s@.subrange(a as int, j as int),
            token_len(t) == (j - k) + token_len(s@.subrange(a as int, k as int)),
        decreases k - a,
    {
        assert(s@.subrange(a as int, k as int).drop_last() =~= s@.subrange(a as int, k - 1));
        k -= 1;
    }
    assert(token_len(s@.subrange(a as int, k as int)) == 0);
    let ghost w = t.skip(t.len() - token_len(t));
    assert(w =~= s@.subrange(k as int, j as int));
    if j - k >= 2 && s[j - 2] == 109 && s[j - 1] == 115 {
        assert(w.skip(w.len() - 2) =~= unit_ms());
        assert(w.take(w.len() - 2) =~= s@.subrange(k as int, j - 2));
        parse_plain(s, k, j - 2)
    } else {
        proof {
            if w.len() >= 2 {
                assert(w.skip(w.len() - 2)[0] == s@[j - 2]);
                assert(w.skip(w.len() - 2)[1] == s@[j - 1]);
            }
            assert(unit_ms()[0] == 109u8 && unit_ms()[1] == 115u8);
        }
        None
    }
}

} // verus!
