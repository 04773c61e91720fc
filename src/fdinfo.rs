//! Parser for the per-process, per-handle usage records of the DRM
//! `fdinfo` interface.
use vstd::prelude::*;
use vstd::string::StringSliceAdditionalSpecFns;
use crate::text::{
    find_colon, find_value, parse_plain, plain_value, key_of, lines_of, parse_quantity, quantity, slices_of,
    split_lines, trim_range, value_of, ranges_valid,
};

verus! {

/// The kind of engine work that a busy-time counter measures.
#[derive(Clone, Copy, Debug, PartialEq, Eq, Hash)]
pub enum ProcessUtilizationType {
    Graphics,
    Compute,
    Memory,
    Encode,
    Decode,
}

/// What one record says of a client: its id, the memory it holds in bytes,
/// and one busy counter per configured engine, in the configured order.
#[derive(Clone, Debug, PartialEq, Eq)]
pub struct FdInfoUtil {
    pub client_id: u64,
    pub memory_used: u64,
    pub total_time: Vec<(ProcessUtilizationType, u64)>,
}

/// The index of the first empty line, or the number of lines.
pub open spec fn blank_index(ls: Seq<Seq<u8>>) -> nat
    decreases ls.len(),
{
    if ls.len() == 0 || ls[0].len() == 0 {
        0
    } else {
        1 + blank_index(ls.drop_first())
    }
}

/// The lines of a record: those before the first blank line.
pub open spec fn record_lines(data: Seq<u8>) -> Seq<Seq<u8>> {
    lines_of(data).take(blank_index(lines_of(data)) as int)
}

/// "ns"
pub open spec fn unit_ns() -> Seq<u8> {
    seq![110u8, 115u8]
}

/// "KiB"
pub open spec fn unit_kib() -> Seq<u8> {
    seq![75u8, 105u8, 66u8]
}

/// "MiB"
pub open spec fn unit_mib() -> Seq<u8> {
    seq![77u8, 105u8, 66u8]
}

/// A number of nanoseconds, written `<n> ns`.
pub open spec fn ns_value(v: Seq<u8>) -> Option<u64> {
    match quantity(v) {
        Some((n, unit)) => if unit == unit_ns() && n <= u64::MAX {
            Some(n as u64)
        } else {
            None
        },
        None => None,
    }
}

pub open spec fn unit_factor(unit: Seq<u8>) -> Option<nat> {
    if unit.len() == 0 {
        Some(1)
    } else if unit == unit_kib() {
        Some(1024)
    } else if unit == unit_mib() {
        Some(1048576)
    } else {
        None
    }
}

/// A memory size in bytes, written as bytes, `<n> KiB` or `<n> MiB`.
pub open spec fn memory_value(v: Seq<u8>) -> Option<u64> {
    match quantity(v) {
        Some((n, unit)) => match unit_factor(unit) {
            Some(f) => if n * f <= u64::MAX {
                Some((n * f) as u64)
            } else {
                None
            },
            None => None,
        },
        None => None,
    }
}

pub open spec fn lookup_plain(ls: Seq<Seq<u8>>, key: Seq<u8>) -> Option<u64> {
    match find_value(ls, key) {
        Some(v) => plain_value(v),
        None => None,
    }
}

pub open spec fn lookup_memory(ls: Seq<Seq<u8>>, key: Seq<u8>) -> Option<u64> {
    match find_value(ls, key) {
        Some(v) => memory_value(v),
        None => None,
    }
}

pub open spec fn lookup_ns(ls: Seq<Seq<u8>>, key: Seq<u8>) -> Option<u64> {
    match find_value(ls, key) {
        Some(v) => ns_value(v),
        None => None,
    }
}

/// The memory size under the first of `keys` that the record holds, or zero.
pub open spec fn memory_used_of(ls: Seq<Seq<u8>>, keys: Seq<Seq<u8>>) -> u64
    decreases keys.len(),
{
    if keys.len() == 0 {
        0
    } else {
        match lookup_memory(ls, keys[0]) {
            Some(m) => m,
            None => memory_used_of(ls, keys.drop_first()),
        }
    }
}

pub open spec fn client_id_key() -> Seq<u8> {
    "drm-client-id".spec_bytes()
}

pub open spec fn cycles_key(name: Seq<u8>) -> Seq<u8> {
    "drm-cycles-".spec_bytes() + name
}

pub open spec fn total_cycles_key(name: Seq<u8>) -> Seq<u8> {
    "drm-total-cycles-".spec_bytes() + name
}

pub open spec fn engine_key(name: Seq<u8>) -> Seq<u8> {
    "drm-engine-".spec_bytes() + name
}

/// The busy counter of one engine: its cycle count when the record gives
/// both the cycles and the total cycles, else its nanoseconds, else zero.
pub open spec fn engine_counter(ls: Seq<Seq<u8>>, name: Seq<u8>) -> u64 {
    match (lookup_plain(ls, cycles_key(name)), lookup_plain(ls, total_cycles_key(name))) {
        (Some(c), Some(_)) => c,
        _ => match lookup_ns(ls, engine_key(name)) {
            Some(t) => t,
            None => 0,
        },
    }
}

pub open spec fn key_bytes(keys: Seq<&str>) -> Seq<Seq<u8>> {
    keys.map_values(|k: &str| k.spec_bytes())
}

/// The memory used is read under the first listed key that the record
/// holds with a readable size; the values under later keys are ignored, not
/// added.
pub proof fn lemma_first_present_key_wins(ls: Seq<Seq<u8>>, keys: Seq<Seq<u8>>, j: int)
    requires
        0 <= j < keys.len(),
        lookup_memory(ls, keys[j]) is Some,
        forall|i: int| 0 <= i < j ==> lookup_memory(ls, #[trigger] keys[i]) is None,
    ensures
        memory_used_of(ls, keys) == lookup_memory(ls, keys[j]).unwrap(),
    decreases j,
{
    if j > 0 {
        assert forall|i: int| 0 <= i < j - 1 implies lookup_memory(
            ls,
            #[trigger] keys.drop_first()[i],
        ) is None by {
            assert(keys.drop_first()[i] == keys[i + 1]);
        }
        assert(lookup_memory(ls, keys[0]) is None);
        lemma_first_present_key_wins(ls, keys.drop_first(), j - 1);
    }
}

/// A record that holds none of the listed keys uses no memory.
pub proof fn lemma_no_key_no_memory(ls: Seq<Seq<u8>>, keys: Seq<Seq<u8>>)
    requires
        forall|i: int| 0 <= i < keys.len() ==> lookup_memory(ls, #[trigger] keys[i]) is None,
    ensures
        memory_used_of(ls, keys) == 0,
    decreases keys.len(),
{
    if keys.len() > 0 {
        assert(lookup_memory(ls, keys[0]) is None);
        assert forall|i: int| 0 <= i < keys.len() - 1 implies lookup_memory(
            ls,
            #[trigger] keys.drop_first()[i],
        ) is None by {
            assert(keys.drop_first()[i] == keys[i + 1]);
        }
        lemma_no_key_no_memory(ls, keys.drop_first());
    }
}

/// A well-formed record: one that gives a client id.
pub open spec fn well_formed_record(data: Seq<u8>) -> bool {
    lookup_plain(record_lines(data), client_id_key()) is Some
}

/// Whether `u` is what the record says under the configured keys and engines.
pub open spec fn describes(
    u: FdInfoUtil,
    data: Seq<u8>,
    vram_keys: Seq<&str>,
    engines: Seq<(&str, ProcessUtilizationType)>,
) -> bool {
    let ls = record_lines(data);
    &&& lookup_plain(ls, client_id_key()) == Some(u.client_id)
    &&& u.memory_used == memory_used_of(ls, key_bytes(vram_keys))
    &&& u.total_time@.len() == engines.len()
    &&& forall|i: int|
        0 <= i < engines.len() ==> #[trigger] u.total_time@[i] == (
            engines[i].1,
            engine_counter(ls, engines[i].0.spec_bytes()),
        )
}

/// `a` followed by `b`.
fn joined(a: &[u8], b: &[u8]) -> (r: Vec<u8>)
    ensures
        r@ == a@ + b@,
{
    let mut out: Vec<u8> = Vec::new();
    let mut i: usize = 0;
    while i < a.len()
        invariant
            i <= a@.len(),
            out@ == a@.take(i as int),
        decreases a.len() - i,
    {
        out.push(a[i]);
        assert(a@.take(i + 1) =~= a@.take(i as int).push(a@[i as int]));
        i += 1;
    }
    let mut j: usize = 0;
    while j < b.len()
        invariant
            j <= b@.len(),
            out@ == a@ + b@.take(j as int),
        decreases b.len() - j,
    {
        out.push(b[j]);
        assert(a@ + b@.take(j + 1) =~= (a@ + b@.take(j as int)).push(b@[j as int]));
        j += 1;
    }
    assert(a@.take(a@.len() as int) =~= a@);
    assert(b@.take(b@.len() as int) =~= b@);
    out
}

/// Whether `s[a..b]` holds exactly `key`.
fn bytes_equal(s: &[u8], a: usize, b: usize, key: &[u8]) -> (r: bool)
    requires
        a <= b <= s@.len(),
    ensures
        r == (s@.subrange(a as int, b as int) == key@),
{
    if b - a != key.len() {
        return false;
    }
    let mut i: usize = 0;
    while i < key.len()
        invariant
            i <= key@.len(),
            b - a == key@.len(),
            a <= b <= s@.len(),
            forall|k: int| 0 <= k < i ==> s@[a + k] == #[trigger] key@[k],
        decreases key.len() - i,
    {
        if s[a + i] != key[i] {
            assert(s@.subrange(a as int, b as int)[i as int] != key@[i as int]);
            return false;
        }
        i += 1;
    }
    assert(s@.subrange(a as int, b as int) =~= key@);
    true
}

/// Number of lines before the first blank one.
fn count_record_lines(s: &[u8], lines: &Vec<(usize, usize)>) -> (r: usize)
    requires
        ranges_valid(lines@, s@.len() as int),
    ensures
        r <= lines@.len(),
        r == blank_index(slices_of(lines@, s@)),
{
    let mut i: usize = 0;
    let ghost ls = slices_of(lines@, s@);
    assert(ls.skip(0) =~= ls);
    while i < lines.len()
        invariant
            i <= lines@.len(),
            ranges_valid(lines@, s@.len() as int),
            ls == slices_of(lines@, s@),
            blank_index(ls) == i + blank_index(ls.skip(i as int)),
        decreases lines.len() - i,
    {
        assert(ls.skip(i as int).drop_first() =~= ls.skip(i + 1));
        assert(ls[i as int].len() == lines@[i as int].1 - lines@[i as int].0);
        if lines[i].1 == lines[i].0 {
            return i;
        }
        i += 1;
    }
    assert(ls.skip(i as int) =~= Seq::<Seq<u8>>::empty());
    i
}

/// Finds the value, as a range of `s`, of the first of the first `n` lines
/// whose key is `key`.
fn find_value_range(s: &[u8], lines: &Vec<(usize, usize)>, n: usize, key: &[u8]) -> (r: Option<
    (usize, usize),
>)
    requires
        ranges_valid(lines@, s@.len() as int),
        n <= lines@.len(),
    ensures
        match find_value(slices_of(lines@, s@).take(n as int), key@) {
            None => r is None,
            Some(v) => {
                &&& r is Some
                &&& r.unwrap().0 <= r.unwrap().1 <= s@.len()
                &&& s@.subrange(r.unwrap().0 as int, r.unwrap().1 as int) == v
            },
        },
{
    let ghost ls = slices_of(lines@, s@).take(n as int);
    let mut i: usize = 0;
    assert(ls.skip(0) =~= ls);
    while i < n
        invariant
            i <= n <= lines@.len(),
            ranges_valid(lines@, s@.len() as int),
            ls == slices_of(lines@, s@).take(n as int),
            find_value(ls, key@) == find_value(ls.skip(i as int), key@),
        decreases n - i,
    {
        let (a, b) = lines[i];
        let ghost l = s@.subrange(a as int, b as int);
        assert(ls.skip(i as int)[0] == l);
        assert(ls.skip(i as int).drop_first() =~= ls.skip(i + 1));
        proof {
            assert(a <= b <= s@.len()) by {
                assert(ranges_valid(lines@, s@.len() as int));
            }
        }
        let ghost rest = ls.skip(i as int);
        match find_colon(s, a, b) {
            None => {
                assert(key_of(l) is None);
                assert(find_value(rest, key@) == find_value(rest.drop_first(), key@));
            },
            Some(c) => {
                assert(l.take(c - a) =~= s@.subrange(a as int, c as int));
                assert(key_of(l) == Some(s@.subrange(a as int, c as int)));
                if bytes_equal(s, a, c, key) {
                    assert(l.skip(c - a + 1) =~= s@.subrange(c + 1, b as int));
                    assert(value_of(l) == crate::text::trim(s@.subrange(c + 1, b as int)));
                    assert(find_value(rest, key@) == Some(value_of(l)));
                    let (va, vb) = trim_range(s, c + 1, b);
                    return Some((va, vb));
                }
                assert(find_value(rest, key@) == find_value(rest.drop_first(), key@));
            },
        }
        i += 1;
    }
    assert(ls.skip(i as int) =~= Seq::<Seq<u8>>::empty());
    None
}

/// Reads `s[a..b]` as a number of nanoseconds.
fn parse_ns(s: &[u8], a: usize, b: usize) -> (r: Option<u64>)
    requires
        a <= b <= s@.len(),
    ensures
        r == ns_value(s@.subrange(a as int, b as int)),
{
    let ghost q = quantity(s@.subrange(a as int, b as int));
    match parse_quantity(s, a, b) {
        Some((n, u)) => if b - u == 2 && s[u] == 110 && s[u + 1] == 115 {
            assert(s@.subrange(u as int, b as int) =~= unit_ns());
            assert(q == Some((n as nat, unit_ns())));
            Some(n)
        } else {
            proof {
                let unit = s@.subrange(u as int, b as int);
                if b - u == 2 {
                    assert(unit[0] == s@[u as int]);
                    assert(unit[1] == s@[u + 1]);
                }
                assert(unit_ns()[0] == 110u8 && unit_ns()[1] == 115u8 && unit_ns().len() == 2);
                assert(unit != unit_ns());
            }
            None
        },
        None => None,
    }
}

/// Reads `s[a..b]` as a memory size in bytes.
fn parse_memory(s: &[u8], a: usize, b: usize) -> (r: Option<u64>)
    requires
        a <= b <= s@.len(),
    ensures
        r == memory_value(s@.subrange(a as int, b as int)),
{
    let ghost q = quantity(s@.subrange(a as int, b as int));
    match parse_quantity(s, a, b) {
        Some((n, u)) => {
            let ghost unit = s@.subrange(u as int, b as int);
            let factor: u64 = if u == b {
                assert(unit =~= Seq::<u8>::empty());
                1
            } else if b - u == 3 && s[u + 1] == 105 && s[u + 2] == 66 && (s[u] == 75 || s[u]
                == 77) {
                if s[u] == 75 {
                    assert(unit =~= unit_kib());
                    1024
                } else {
                    assert(unit =~= unit_mib());
                    1048576
                }
            } else {
                proof {
                    if b - u == 3 {
                        assert(unit[0] == s@[u as int]);
                        assert(unit[1] == s@[u + 1]);
                        assert(unit[2] == s@[u + 2]);
                    }
                    assert(unit_kib()[0] == 75u8 && unit_kib()[1] == 105u8 && unit_kib()[2] == 66u8);
                    assert(unit_mib()[0] == 77u8 && unit_mib()[1] == 105u8 && unit_mib()[2] == 66u8);
                    assert(unit_kib().len() == 3 && unit_mib().len() == 3);
                    assert(unit != unit_kib() && unit != unit_mib());
                }
                return None;
            };
            assert(unit_factor(unit) == Some(factor as nat));
            assert(q == Some((n as nat, unit)));
            let r = n.checked_mul(factor);
            assert(r == memory_value(s@.subrange(a as int, b as int)));
            r
        },
        None => None,
    }
}

fn lookup_plain_in(s: &[u8], lines: &Vec<(usize, usize)>, n: usize, key: &[u8]) -> (r: Option<
    u64,
>)
    requires
        ranges_valid(lines@, s@.len() as int),
        n <= lines@.len(),
    ensures
        r == lookup_plain(slices_of(lines@, s@).take(n as int), key@),
{
    match find_value_range(s, lines, n, key) {
        Some((a, b)) => parse_plain(s, a, b),
        None => None,
    }
}

fn lookup_ns_in(s: &[u8], lines: &Vec<(usize, usize)>, n: usize, key: &[u8]) -> (r: Option<u64>)
    requires
        ranges_valid(lines@, s@.len() as int),
        n <= lines@.len(),
    ensures
        r == lookup_ns(slices_of(lines@, s@).take(n as int), key@),
{
    match find_value_range(s, lines, n, key) {
        Some((a, b)) => parse_ns(s, a, b),
        None => None,
    }
}

fn lookup_memory_in(s: &[u8], lines: &Vec<(usize, usize)>, n: usize, key: &[u8]) -> (r: Option<
    u64,
>)
    requires
        ranges_valid(lines@, s@.len() as int),
        n <= lines@.len(),
    ensures
        r == lookup_memory(slices_of(lines@, s@).take(n as int), key@),
{
    match find_value_range(s, lines, n, key) {
        Some((a, b)) => parse_memory(s, a, b),
        None => None,
    }
}

fn memory_used_in(s: &[u8], lines: &Vec<(usize, usize)>, n: usize, keys: &[&str]) -> (r: u64)
    requires
        ranges_valid(lines@, s@.len() as int),
        n <= lines@.len(),
    ensures
        r == memory_used_of(slices_of(lines@, s@).take(n as int), key_bytes(keys@)),
{
    let ghost ls = slices_of(lines@, s@).take(n as int);
    let ghost kb = key_bytes(keys@);
    let mut i: usize = 0;
    assert(kb.skip(0) =~= kb);
    while i < keys.len()
        invariant
            i <= keys@.len(),
            n <= lines@.len(),
            ranges_valid(lines@, s@.len() as int),
            ls == slices_of(lines@, s@).take(n as int),
            kb == key_bytes(keys@),
            memory_used_of(ls, kb) == memory_used_of(ls, kb.skip(i as int)),
        decreases keys.len() - i,
    {
        assert(kb.skip(i as int).drop_first() =~= kb.skip(i + 1));
        assert(kb.skip(i as int)[0] == keys@[i as int].spec_bytes());
        match lookup_memory_in(s, lines, n, keys[i].as_bytes()) {
            Some(m) => {
                return m;
            },
            None => {},
        }
        i += 1;
    }
    assert(kb.skip(i as int) =~= Seq::<Seq<u8>>::empty());
    0
}

fn engine_counter_in(s: &[u8], lines: &Vec<(usize, usize)>, n: usize, name: &str) -> (r: u64)
    requires
        ranges_valid(lines@, s@.len() as int),
        n <= lines@.len(),
    ensures
        r == engine_counter(slices_of(lines@, s@).take(n as int), name.spec_bytes()),
{
    let nb = name.as_bytes();
    let cycles_name = joined("drm-cycles-".as_bytes(), nb);
    let total_name = joined("drm-total-cycles-".as_bytes(), nb);
    let cycles = lookup_plain_in(s, lines, n, cycles_name.as_slice());
    let total = lookup_plain_in(s, lines, n, total_name.as_slice());
    match (cycles, total) {
        (Some(c), Some(_)) => c,
        _ => {
            let engine_name = joined("drm-engine-".as_bytes(), nb);
            match lookup_ns_in(s, lines, n, engine_name.as_slice()) {
                Some(t) => t,
                None => 0,
            }
        },
    }
}

/// Parses one usage record. The record's lines end at the first blank line;
/// a line that is not `key: value`, or whose value does not read, is passed
/// over. The result is there exactly when the record gives a client id.
pub fn parse_fdinfo(data: &str, vram_keys: &[&str], engines: &[(&str, ProcessUtilizationType)]) -> (r:
    Option<FdInfoUtil>)
    ensures
        r is Some <==> well_formed_record(data.spec_bytes()),
        r is Some ==> describes(r.unwrap(), data.spec_bytes(), vram_keys@, engines@),
{
    let s = data.as_bytes();
    let lines = split_lines(s);
    let n = count_record_lines(s, &lines);
    let ghost ls = slices_of(lines@, s@).take(n as int);
    assert(ls == record_lines(data.spec_bytes()));
    let client_id = match lookup_plain_in(s, &lines, n, "drm-client-id".as_bytes()) {
        Some(id) => id,
        None => {
            return None;
        },
    };
    let memory_used = memory_used_in(s, &lines, n, vram_keys);
    let mut total_time: Vec<(ProcessUtilizationType, u64)> = Vec::new();
    let mut i: usize = 0;
    while i < engines.len()
        invariant
            i <= engines@.len(),
            n <= lines@.len(),
            ranges_valid(lines@, s@.len() as int),
            ls == slices_of(lines@, s@).take(n as int),
            total_time@.len() == i,
            forall|j: int|
                0 <= j < i ==> #[trigger] total_time@[j] == (
                    engines@[j].1,
                    engine_counter(ls, engines@[j].0.spec_bytes()),
                ),
        decreases engines.len() - i,
    {
        let (name, kind) = engines[i];
        let counter = engine_counter_in(s, &lines, n, name);
        total_time.push((kind, counter));
        i += 1;
    }
    Some(FdInfoUtil { client_id, memory_used, total_time })
}

} // verus!
