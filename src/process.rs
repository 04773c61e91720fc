//! Per-client engine utilization, from the busy counters of two consecutive
//! polls of the usage records.
use vstd::prelude::*;
use crate::fdinfo::{FdInfoUtil, ProcessUtilizationType};
use crate::rate::{busy_percent_of, RateSample};

verus! {

/// A client's record as seen at one poll.
#[derive(Debug)]
pub struct ClientSample {
    pub timestamp: u64,
    pub util: FdInfoUtil,
}

/// What one poll reports of a client: its record and, from its second poll
/// on, the percentage of the elapsed time that each engine was busy (none
/// for an engine whose counter went down or that the previous poll lacked,
/// and when no time has passed).
#[derive(Debug)]
pub struct ProcessUsage {
    pub client_id: u64,
    pub memory_used: u64,
    pub total_time: Vec<(ProcessUtilizationType, u64)>,
    pub utilization: Option<Vec<(ProcessUtilizationType, Option<u8>)>>,
}

/// The first retained sample of client `id`.
pub open spec fn find_client(last: Seq<ClientSample>, id: u64) -> Option<ClientSample>
    decreases last.len(),
{
    if last.len() == 0 {
        None
    } else if last[0].util.client_id == id {
        Some(last[0])
    } else {
        find_client(last.drop_first(), id)
    }
}

/// Busy percentage of engine `k` between a retained sample and a counter
/// read at `now`.
pub open spec fn engine_share(prev: ClientSample, k: int, now: u64, counter: u64) -> Option<u8> {
    if k < prev.util.total_time@.len() {
        busy_percent_of(
            Some(RateSample { timestamp: prev.timestamp, counter: prev.util.total_time@[k].1 }),
            now,
            counter,
        )
    } else {
        None
    }
}

/// Whether `p` is what a poll at `now` reports of `u`, given the samples
/// retained from the poll before.
pub open spec fn reports(p: ProcessUsage, last: Seq<ClientSample>, now: u64, u: FdInfoUtil) -> bool {
    &&& p.client_id == u.client_id
    &&& p.memory_used == u.memory_used
    &&& p.total_time@ == u.total_time@
    &&& match find_client(last, u.client_id) {
        None => p.utilization is None,
        Some(prev) => {
            &&& p.utilization is Some
            &&& p.utilization.unwrap()@.len() == u.total_time@.len()
            &&& forall|k: int|
                0 <= k < u.total_time@.len() ==> #[trigger] p.utilization.unwrap()@[k] == (
                    u.total_time@[k].0,
                    engine_share(prev, k, now, u.total_time@[k].1),
                )
        },
    }
}

fn copy_counters(v: &Vec<(ProcessUtilizationType, u64)>) -> (r: Vec<(ProcessUtilizationType, u64)>)
    ensures
        r@ == v@,
{
    let mut out: Vec<(ProcessUtilizationType, u64)> = Vec::new();
    let mut i: usize = 0;
    while i < v.len()
        invariant
            i <= v@.len(),
            out@ == v@.take(i as int),
        decreases v.len() - i,
    {
        out.push(v[i]);
        assert(v@.take(i + 1) =~= v@.take(i as int).push(v@[i as int]));
        i += 1;
    }
    assert(v@.take(i as int) =~= v@);
    out
}

/// Retained samples of the previous poll, one per client seen there.
pub struct DrmUtilTracker {
    pub last: Vec<ClientSample>,
}

impl DrmUtilTracker {
    pub fn new() -> (r: DrmUtilTracker)
        ensures
            r.last@.len() == 0,
            r.wf(),
    {
        DrmUtilTracker { last: Vec::new() }
    }

    /// Index of the first retained sample of client `id`.
    fn position(&self, id: u64) -> (r: Option<usize>)
        ensures
            match find_client(self.last@, id) {
                None => r is None,
                Some(c) => r is Some && r.unwrap() < self.last@.len() && self.last@[r.unwrap() as int]
                    == c,
            },
    {
        let ghost l = self.last@;
        let mut i: usize = 0;
        assert(l.skip(0) =~= l);
        while i < self.last.len()
            invariant
                i <= l.len(),
                l == self.last@,
                find_client(l, id) == find_client(l.skip(i as int), id),
            decreases l.len() - i,
        {
            assert(l.skip(i as int).drop_first() =~= l.skip(i + 1));
            if self.last[i].util.client_id == id {
                return Some(i);
            }
            i += 1;
        }
        assert(l.skip(i as int) =~= Seq::<ClientSample>::empty());
        None
    }

    /// What a poll at `now` reports of record `u`.
    fn report(&self, now: u64, u: &FdInfoUtil) -> (r: ProcessUsage)
        ensures
            reports(r, self.last@, now, *u),
    {
        let counters = &u.total_time;
        let utilization = match self.position(u.client_id) {
            None => None,
            Some(p) => {
                let prev = &self.last[p];
                let mut shares: Vec<(ProcessUtilizationType, Option<u8>)> = Vec::new();
                let mut k: usize = 0;
                while k < counters.len()
                    invariant
                        k <= counters@.len(),
                        counters@ == u.total_time@,
                        shares@.len() == k,
                        forall|j: int|
                            0 <= j < k ==> #[trigger] shares@[j] == (
                                counters@[j].0,
                                engine_share(*prev, j, now, counters@[j].1),
                            ),
                    decreases counters.len() - k,
                {
                    let (kind, counter) = counters[k];
                    let share = if k < prev.util.total_time.len() {
                        let before = prev.util.total_time[k].1;
                        if counter < before || now <= prev.timestamp {
                            None
                        } else {
                            let d: u64 = counter - before;
                            let e: u64 = now - prev.timestamp;
                            proof {
                                assert((d as int) * 100 <= (u64::MAX as int) * 100)
                                    by (nonlinear_arith)
                                    requires
                                        d <= u64::MAX,
                                ;
                            }
                            let q: u128 = ((d as u128) * 100) / (e as u128);
                            if q > 100 {
                                Some(100u8)
                            } else {
                                Some(q as u8)
                            }
                        }
                    } else {
                        None
                    };
                    shares.push((kind, share));
                    k += 1;
                }
                Some(shares)
            },
        };
        ProcessUsage {
            client_id: u.client_id,
            memory_used: u.memory_used,
            total_time: copy_counters(counters),
            utilization,
        }
    }

    /// No two retained samples belong to the same client.
    pub open spec fn wf(&self) -> bool {
        forall|i: int, j: int|
            0 <= i < j < self.last@.len() ==> (#[trigger] self.last@[i]).util.client_id
                != (#[trigger] self.last@[j]).util.client_id
    }

    /// Reports each client's first current record against the previous
    /// poll, then retains those records, stamped `now`, in place of the old
    /// ones: a client that no longer shows up is forgotten, and a client that
    /// shows up twice counts once.
    pub fn poll(&mut self, now: u64, current: Vec<FdInfoUtil>) -> (r: Vec<ProcessUsage>)
        ensures
            r@.len() == first_per_client(current@).len(),
            forall|i: int|
                0 <= i < r@.len() ==> reports(
                    #[trigger] r@[i],
                    old(self).last@,
                    now,
                    first_per_client(current@)[i],
                ),
            final(self).last@.len() == first_per_client(current@).len(),
            forall|i: int|
                0 <= i < final(self).last@.len() ==> (#[trigger] final(self).last@[i]) == (
                ClientSample { timestamp: now, util: first_per_client(current@)[i] }),
            final(self).wf(),
    {
        let kept = first_of_each_client(current);
        let ghost cur = kept@;
        proof {
            lemma_first_per_client_distinct(current@);
        }
        let mut out: Vec<ProcessUsage> = Vec::new();
        let mut i: usize = 0;
        while i < kept.len()
            invariant
                i <= kept@.len(),
                self.last@ == old(self).last@,
                out@.len() == i,
                forall|j: int| 0 <= j < i ==> reports(#[trigger] out@[j], old(self).last@, now, kept@[j]),
            decreases kept.len() - i,
        {
            let p = self.report(now, &kept[i]);
            out.push(p);
            i += 1;
        }
        let mut retained: Vec<ClientSample> = Vec::new();
        let mut rest = kept;
        let ghost n = cur.len();
        while rest.len() > 0
            invariant
                rest@.len() + retained@.len() == n,
                n == cur.len(),
                forall|j: int|
                    0 <= j < retained@.len() ==> (#[trigger] retained@[j]) == (ClientSample {
                        timestamp: now,
                        util: cur[rest@.len() + j],
                    }),
                rest@ == cur.take(rest@.len() as int),
            decreases rest@.len(),
        {
            let u = rest.pop().unwrap();
            retained.insert(0, ClientSample { timestamp: now, util: u });
        }
        self.last = retained;
        assert forall|a: int, b: int| 0 <= a < b < self.last@.len() implies (
        #[trigger] self.last@[a]).util.client_id != (#[trigger] self.last@[b]).util.client_id by {
            assert(self.last@[a].util == cur[a]);
            assert(self.last@[b].util == cur[b]);
        }
        out
    }
}

/// Whether some record of `s` belongs to client `id`.
pub open spec fn has_client(s: Seq<FdInfoUtil>, id: u64) -> bool {
    exists|k: int| 0 <= k < s.len() && (#[trigger] s[k]).client_id == id
}

/// The first record of each client, in the order of `s`.
pub open spec fn first_per_client(s: Seq<FdInfoUtil>) -> Seq<FdInfoUtil>
    decreases s.len(),
{
    if s.len() == 0 {
        seq![]
    } else {
        let d = first_per_client(s.drop_last());
        if has_client(d, s.last().client_id) {
            d
        } else {
            d.push(s.last())
        }
    }
}

pub open spec fn distinct_clients(s: Seq<FdInfoUtil>) -> bool {
    forall|i: int, j: int|
        0 <= i < j < s.len() ==> (#[trigger] s[i]).client_id != (#[trigger] s[j]).client_id
}

/// Each client has at most one record among the first ones.
pub proof fn lemma_first_per_client_distinct(s: Seq<FdInfoUtil>)
    ensures
        distinct_clients(first_per_client(s)),
    decreases s.len(),
{
    if s.len() > 0 {
        lemma_first_per_client_distinct(s.drop_last());
        let d = first_per_client(s.drop_last());
        if !has_client(d, s.last().client_id) {
            let e = d.push(s.last());
            assert forall|i: int, j: int| 0 <= i < j < e.len() implies (#[trigger] e[i]).client_id
                != (#[trigger] e[j]).client_id by {
                if j == d.len() {
                    assert(d[i] == e[i]);
                } else {
                    assert(d[i] == e[i] && d[j] == e[j]);
                }
            }
        }
    }
}

/// Keeps the first record of each client.
fn first_of_each_client(current: Vec<FdInfoUtil>) -> (r: Vec<FdInfoUtil>)
    ensures
        r@ == first_per_client(current@),
{
    let ghost cur = current@;
    let mut rest = current;
    let mut kept: Vec<FdInfoUtil> = Vec::new();
    assert(cur.skip(0) =~= cur);
    while rest.len() > 0
        invariant
            rest@.len() <= cur.len(),
            rest@ == cur.skip(cur.len() - rest@.len()),
            kept@ == first_per_client(cur.take(cur.len() - rest@.len())),
        decreases rest@.len(),
    {
        let ghost k = cur.len() - rest@.len();
        let u = rest.remove(0);
        assert(u == cur[k]);
        assert(cur.take(k + 1).drop_last() =~= cur.take(k));
        let mut p: usize = 0;
        let mut found = false;
        while p < kept.len() && !found
            invariant
                p <= kept@.len(),
                found ==> has_client(kept@, u.client_id),
                forall|q: int| 0 <= q < p ==> (#[trigger] kept@[q]).client_id != u.client_id,
            decreases kept.len() - p + if found {
                0int
            } else {
                1int
            },
        {
            if kept[p].client_id == u.client_id {
                found = true;
            } else {
                p += 1;
            }
        }
        if !found {
            kept.push(u);
        }
        assert(rest@ =~= cur.skip(k + 1));
    }
    assert(cur.take(cur.len() as int) =~= cur);
    kept
}

/// A client seen for the first time has no utilization; seen again, each
/// engine whose counter grew over time that passed has a defined
/// percentage.
pub proof fn lemma_second_poll_defined(
    t0: u64,
    first: FdInfoUtil,
    t1: u64,
    second: FdInfoUtil,
    p0: ProcessUsage,
    p1: ProcessUsage,
    k: int,
)
    requires
        reports(p0, seq![], t0, first),
        reports(p1, seq![ClientSample { timestamp: t0, util: first }], t1, second),
        first.client_id == second.client_id,
        t0 < t1,
        0 <= k < first.total_time@.len(),
        k < second.total_time@.len(),
        first.total_time@[k].1 <= second.total_time@[k].1,
    ensures
        p0.utilization is None,
        p1.utilization is Some,
        p1.utilization.unwrap()@[k].1 is Some,
{
}

} // verus!
