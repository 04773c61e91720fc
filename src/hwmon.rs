//! Selection of sensor files in a hwmon directory.
use vstd::prelude::*;
use vstd::string::StringSliceAdditionalSpecFns;
use vstd::utf8::encode_utf8;

verus! {

broadcast use vstd::seq_lib::group_to_multiset_ensures;

pub const UNDERSCORE: u8 = 95;

/// Lexicographic order on bytes, which is the order of `str`.
pub open spec fn lex_lt(a: Seq<u8>, b: Seq<u8>) -> bool
    decreases a.len(),
{
    if a.len() == 0 {
        b.len() > 0
    } else if b.len() == 0 {
        false
    } else if a[0] != b[0] {
        a[0] < b[0]
    } else {
        lex_lt(a.drop_first(), b.drop_first())
    }
}

pub proof fn lemma_lex_lt_transitive(a: Seq<u8>, b: Seq<u8>, c: Seq<u8>)
    requires
        lex_lt(a, b),
        lex_lt(b, c),
    ensures
        lex_lt(a, c),
    decreases a.len(),
{
    if a.len() > 0 && b.len() > 0 && c.len() > 0 && a[0] == b[0] && b[0] == c[0] {
        lemma_lex_lt_transitive(a.drop_first(), b.drop_first(), c.drop_first());
    }
}

pub proof fn lemma_lex_lt_irreflexive(a: Seq<u8>)
    ensures
        !lex_lt(a, a),
    decreases a.len(),
{
    if a.len() > 0 {
        lemma_lex_lt_irreflexive(a.drop_first());
    }
}

/// `names` in ascending order.
pub open spec fn ascending(names: Seq<Seq<u8>>) -> bool {
    forall|i: int, j: int| 0 <= i < j < names.len() ==> !lex_lt(#[trigger] names[j], #[trigger] names[i])
}

/// Whether `name` is `prefix`, then a part without `_`, then `suffix`: the
/// bare numbered instance of a sensor family, not one of its `_crit`,
/// `_alarm` or `_label` companions.
pub open spec fn is_sensor_name(name: Seq<u8>, prefix: Seq<u8>, suffix: Seq<u8>) -> bool {
    &&& prefix.len() + suffix.len() <= name.len()
    &&& name.take(prefix.len() as int) == prefix
    &&& name.skip(name.len() - suffix.len()) == suffix
    &&& forall|i: int|
        prefix.len() <= i < name.len() - suffix.len() ==> #[trigger] name[i] != UNDERSCORE
}

pub open spec fn bytes_of(names: Seq<String>) -> Seq<Seq<u8>> {
    names.map_values(|n: String| encode_utf8(n@))
}

/// The names of `names` that are sensor names, in their order.
pub open spec fn sensor_names(names: Seq<Seq<u8>>, prefix: Seq<u8>, suffix: Seq<u8>) -> Seq<Seq<u8>>
    decreases names.len(),
{
    if names.len() == 0 {
        seq![]
    } else {
        let rest = sensor_names(names.drop_last(), prefix, suffix);
        if is_sensor_name(names.last(), prefix, suffix) {
            rest.push(names.last())
        } else {
            rest
        }
    }
}

/// Whether `name` is a sensor name of the family `prefix`…`suffix`.
pub fn matches_sensor(name: &str, prefix: &str, suffix: &str) -> (r: bool)
    ensures
        r == is_sensor_name(name.spec_bytes(), prefix.spec_bytes(), suffix.spec_bytes()),
{
    let n = name.as_bytes();
    let p = prefix.as_bytes();
    let s = suffix.as_bytes();
    if n.len() < p.len() || n.len() - p.len() < s.len() {
        return false;
    }
    let mut i: usize = 0;
    while i < p.len()
        invariant
            i <= p@.len() <= n@.len(),
            p@.len() + s@.len() <= n@.len(),
            n@ == name.spec_bytes(),
            p@ == prefix.spec_bytes(),
            s@ == suffix.spec_bytes(),
            forall|k: int| 0 <= k < i ==> n@[k] == #[trigger] p@[k],
        decreases p.len() - i,
    {
        if n[i] != p[i] {
            assert(n@.take(p@.len() as int)[i as int] != p@[i as int]);
            return false;
        }
        i += 1;
    }
    assert(n@.take(p@.len() as int) =~= p@);
    let start: usize = n.len() - s.len();
    let mut x: usize = start;
    while x < n.len()
        invariant
            start <= x <= n@.len(),
            start == n@.len() - s@.len(),
            p@.len() + s@.len() <= n@.len(),
            n@ == name.spec_bytes(),
            p@ == prefix.spec_bytes(),
            s@ == suffix.spec_bytes(),
            n@.take(p@.len() as int) == p@,
            forall|k: int| start <= k < x ==> n@[k] == #[trigger] s@[k - start],
        decreases n.len() - x,
    {
        if n[x] != s[x - start] {
            assert(n@.skip(start as int)[x - start] != s@[x - start]);
            return false;
        }
        x += 1;
    }
    assert forall|k: int| 0 <= k < s@.len() implies n@.skip(start as int)[k] == s@[k] by {
        assert(n@[start + k] == s@[start + k - start]);
    }
    assert(n@.skip(start as int) =~= s@);
    let mut k: usize = p.len();
    while k < start
        invariant
            p@.len() <= k <= start,
            start == n@.len() - s@.len(),
            p@.len() + s@.len() <= n@.len(),
            n@ == name.spec_bytes(),
            p@ == prefix.spec_bytes(),
            s@ == suffix.spec_bytes(),
            n@.take(p@.len() as int) == p@,
            n@.skip(start as int) == s@,
            forall|x: int| p@.len() <= x < k ==> #[trigger] n@[x] != UNDERSCORE,
        decreases start - k,
    {
        if n[k] == UNDERSCORE {
            return false;
        }
        k += 1;
    }
    true
}

/// The sensor files of the family `prefix`…`suffix` among `names`, in
/// ascending order, so that the choice is the same at every poll.
pub fn select_sensor_files(names: &Vec<String>, prefix: &str, suffix: &str) -> (r: Vec<String>)
    ensures
        ascending(bytes_of(r@)),
        bytes_of(r@).to_multiset() == sensor_names(
            bytes_of(names@),
            prefix.spec_bytes(),
            suffix.spec_bytes(),
        ).to_multiset(),
{
    let ghost all = bytes_of(names@);
    let ghost ps = prefix.spec_bytes();
    let ghost ss = suffix.spec_bytes();
    let mut out: Vec<String> = Vec::new();
    let mut i: usize = 0;
    while i < names.len()
        invariant
            i <= names@.len(),
            all == bytes_of(names@),
            ps == prefix.spec_bytes(),
            ss == suffix.spec_bytes(),
            ascending(bytes_of(out@)),
            bytes_of(out@).to_multiset() == sensor_names(all.take(i as int), ps, ss).to_multiset(),
        decreases names.len() - i,
    {
        assert(all.take(i + 1).drop_last() =~= all.take(i as int));
        let name = &names[i];
        let nb = name.as_str().as_bytes();
        if matches_sensor(name.as_str(), prefix, suffix) {
            let ghost ob = bytes_of(out@);
            assert(nb@ == all[i as int]);
            let mut p: usize = 0;
            let mut stop = false;
            while !stop && p < out.len()
                invariant
                    p <= out@.len(),
                    i < names@.len(),
                    all.len() == names@.len(),
                    ob == bytes_of(out@),
                    nb@ == all[i as int],
                    stop ==> p < ob.len() && lex_lt(nb@, ob[p as int]),
                    forall|k: int| 0 <= k < p ==> !lex_lt(nb@, #[trigger] ob[k]),
                decreases out.len() - p + if stop {
                    0int
                } else {
                    1int
                },
            {
                if lt_bytes(nb, out[p].as_str().as_bytes()) {
                    stop = true;
                } else {
                    p += 1;
                }
            }
            let item = name.clone();
            out.insert(p, item);
            proof {
                let x = all[i as int];
                let nob = bytes_of(out@);
                assert(nob =~= ob.insert(p as int, x));
                assert forall|a: int, b: int| 0 <= a < b < nob.len() implies !lex_lt(
                    #[trigger] nob[b],
                    #[trigger] nob[a],
                ) by {
                    if a < p && b == p {
                    } else if a == p && b > p {
                        if lex_lt(nob[b], x) {
                            lemma_lex_lt_transitive(ob[b - 1], x, ob[p as int]);
                            lemma_lex_lt_irreflexive(ob[p as int]);
                            assert(!lex_lt(ob[b - 1], ob[p as int]));
                        }
                    } else if a < p && b > p {
                        assert(!lex_lt(ob[b - 1], ob[a]));
                    } else if b < p {
                        assert(!lex_lt(ob[b], ob[a]));
                    } else {
                        assert(!lex_lt(ob[b - 1], ob[a - 1]));
                    }
                }
                vstd::seq_lib::to_multiset_insert(ob, p as int, x);
                vstd::seq_lib::to_multiset_build(sensor_names(all.take(i as int), ps, ss), x);
            }
        }
        i += 1;
    }
    assert(all.take(i as int) =~= all);
    out
}

/// The lowest-named sensor file of the family `prefix`…`suffix`, the one
/// that a single read or write goes to.
pub fn first_sensor_file(names: &Vec<String>, prefix: &str, suffix: &str) -> (r: Option<String>)
    ensures
        r is None <==> sensor_names(bytes_of(names@), prefix.spec_bytes(), suffix.spec_bytes()).len()
            == 0,
        r is Some ==> {
            let found = sensor_names(bytes_of(names@), prefix.spec_bytes(), suffix.spec_bytes());
            let x = encode_utf8(r.unwrap()@);
            &&& found.contains(x)
            &&& forall|j: int| 0 <= j < found.len() ==> !lex_lt(#[trigger] found[j], x)
        },
{
    let mut sorted = select_sensor_files(names, prefix, suffix);
    let ghost found = sensor_names(bytes_of(names@), prefix.spec_bytes(), suffix.spec_bytes());
    let ghost ob = bytes_of(sorted@);
    if sorted.len() == 0 {
        proof {
            assert(ob.len() == 0);
            assert(ob.to_multiset().len() == 0);
        }
        None
    } else {
        let first = sorted.swap_remove(0);
        proof {
            let x = ob[0];
            assert(x == encode_utf8(first@));
            assert(ob.to_multiset().count(x) > 0);
            assert(found.contains(x));
            assert forall|j: int| 0 <= j < found.len() implies !lex_lt(#[trigger] found[j], x) by {
                let y = found[j];
                assert(found.to_multiset().count(y) > 0);
                assert(ob.contains(y));
                let k = choose|k: int| 0 <= k < ob.len() && ob[k] == y;
                if k == 0 {
                    lemma_lex_lt_irreflexive(x);
                } else {
                    assert(!lex_lt(ob[k], ob[0]));
                }
            }
        }
        Some(first)
    }
}

/// Whether `a` comes before `b` in lexicographic order.
fn lt_bytes(a: &[u8], b: &[u8]) -> (r: bool)
    ensures
        r == lex_lt(a@, b@),
{
    let mut i: usize = 0;
    assert(a@.skip(0) =~= a@);
    assert(b@.skip(0) =~= b@);
    while i < a.len() && i < b.len() && a[i] == b[i]
        invariant
            i <= a@.len(),
            i <= b@.len(),
            lex_lt(a@, b@) == lex_lt(a@.skip(i as int), b@.skip(i as int)),
        decreases a.len() - i,
    {
        assert(a@.skip(i as int).drop_first() =~= a@.skip(i + 1));
        assert(b@.skip(i as int).drop_first() =~= b@.skip(i + 1));
        i += 1;
    }
    let ghost sa = a@.skip(i as int);
    let ghost sb = b@.skip(i as int);
    if i < a.len() && i < b.len() {
        assert(sa[0] == a@[i as int] && sb[0] == b@[i as int]);
    }
    if i == a.len() {
        i < b.len()
    } else if i == b.len() {
        false
    } else {
        a[i] < b[i]
    }
}

} // verus!
