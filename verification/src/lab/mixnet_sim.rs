//! Sample paths through a mix network, with made-up latencies.

use vstd::prelude::*;

verus! {

/// One sampled path.
pub struct PathSample {
    pub path_id: usize,
    pub hops: usize,
    pub latency_ms: u64,
}

/// The number of hops of path `i`: two to six, in turn.
pub open spec fn hops_of(i: int) -> int {
    2 + i % 5
}

/// The latency of path `i` over a base latency: a jitter below 100 that
/// goes in steps of 13, and five milliseconds for each hop.
pub open spec fn latency_of(i: int, base_ms: int) -> int {
    base_ms + (i * 13) % 100 + hops_of(i) * 5
}

/// The largest base latency to which every jitter and hop count can be
/// added.
pub const MAX_BASE_MS: u64 = 0xffff_ffff_ffff_ff7e;

/// Samples `n` paths over a base latency.
pub fn simulate_paths(n: usize, base_ms: u64) -> (out: Vec<PathSample>)
    requires
        base_ms <= MAX_BASE_MS,
    ensures
        out@.len() == n,
        forall|i: int|
            0 <= i < n ==> {
                &&& (#[trigger] out@[i]).path_id == i
                &&& out@[i].hops == hops_of(i)
                &&& out@[i].latency_ms == latency_of(i, base_ms as int)
            },
{
    let mut out: Vec<PathSample> = Vec::new();
    let mut i: usize = 0;
    while i < n
        invariant
            i <= n,
            base_ms <= MAX_BASE_MS,
            out@.len() == i,
            forall|j: int|
                0 <= j < i ==> {
                    &&& (#[trigger] out@[j]).path_id == j
                    &&& out@[j].hops == hops_of(j)
                    &&& out@[j].latency_ms == latency_of(j, base_ms as int)
                },
        decreases n - i,
    {
        let hops: usize = 2 + (i % 5);
        let jitter: u64 = (((i % 100) as u64) * 13) % 100;
        assert(jitter as int == (i as int * 13) % 100) by {
            let q = i as int / 100;
            let r = i as int % 100;
            assert(i as int * 13 == q * 1300 + r * 13);
            assert((q * 1300 + r * 13) % 100 == (r * 13) % 100) by {
                assert(q * 1300 == (q * 13) * 100);
                vstd::arithmetic::div_mod::lemma_mod_multiples_vanish(q * 13, r * 13, 100);
            }
        }
        let latency: u64 = base_ms + jitter + (hops as u64) * 5;
        out.push(PathSample { path_id: i, hops, latency_ms: latency });
        i += 1;
    }
    out
}

} // verus!
