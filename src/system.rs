use vstd::prelude::*;

use crate::model::Timestamp;

verus! {

/// How many of the busiest processes a snapshot lists.
pub const TOP_PROCESSES: usize = 5;

/// Memory counters of one host. Byte counts are raw; `usage_percent` is in
/// hundredths of a percent.
#[derive(Clone, Debug)]
pub struct MemoryMetrics {
    pub total_bytes: u64,
    pub used_bytes: u64,
    pub available_bytes: u64,
    pub usage_percent: i64,
    pub swap_total_bytes: u64,
    pub swap_used_bytes: u64,
    pub timestamp: Timestamp,
}

/// Space on one mounted filesystem. Byte counts are raw; `usage_percent` is in
/// hundredths of a percent.
#[derive(Clone, Debug)]
pub struct DiskMetrics {
    pub mount_point: String,
    pub filesystem_type: String,
    pub total_bytes: u64,
    pub used_bytes: u64,
    pub available_bytes: u64,
    pub usage_percent: i64,
    pub timestamp: Timestamp,
}

/// The process table in short: how many processes run, and the busiest few.
#[derive(Clone, Debug)]
pub struct ProcessesMetrics {
    pub process_count: usize,
    pub process_info: Vec<ProcessMetric>,
    pub timestamp: Timestamp,
}

/// One process: `cpu_usage` in hundredths of a percent, `memory` in bytes.
#[derive(Clone, Debug)]
pub struct ProcessMetric {
    pub pid: u32,
    pub name: String,
    pub cpu_usage: i64,
    pub memory: u64,
}

/// Everything read from one host in one pass.
#[derive(Clone, Debug)]
pub struct SystemSnapshot {
    pub memory: MemoryMetrics,
    pub disk: Vec<DiskMetrics>,
    pub processes: ProcessesMetrics,
    pub hostname: String,
}

/// `part` of `whole` in hundredths of a percent, rounded down; zero when
/// `whole` is zero, and `i64::MAX` where the quotient does not fit.
pub open spec fn percent_of(part: int, whole: int) -> int {
    if whole == 0 {
        0
    } else if part * 10000 / whole > i64::MAX {
        i64::MAX as int
    } else {
        part * 10000 / whole
    }
}

/// `part` of `whole` in hundredths of a percent (see `percent_of`).
pub fn usage_percent(part: u64, whole: u64) -> (r: i64)
    ensures
        r == percent_of(part as int, whole as int),
{
    if whole == 0 {
        0
    } else {
        let q: u128 = part as u128 * 10000 / whole as u128;
        if q > i64::MAX as u128 {
            i64::MAX
        } else {
            q as i64
        }
    }
}

impl MemoryMetrics {
    /// Memory counters as read, with the usage derived from `used_bytes` and `total_bytes`.
    pub fn from_counters(
        total_bytes: u64,
        used_bytes: u64,
        available_bytes: u64,
        swap_total_bytes: u64,
        swap_used_bytes: u64,
        timestamp: Timestamp,
    ) -> (r: MemoryMetrics)
        ensures
            r.total_bytes == total_bytes,
            r.used_bytes == used_bytes,
            r.available_bytes == available_bytes,
            r.swap_total_bytes == swap_total_bytes,
            r.swap_used_bytes == swap_used_bytes,
            r.usage_percent == percent_of(used_bytes as int, total_bytes as int),
            r.timestamp == timestamp,
    {
        MemoryMetrics {
            total_bytes,
            used_bytes,
            available_bytes,
            usage_percent: usage_percent(used_bytes, total_bytes),
            swap_total_bytes,
            swap_used_bytes,
            timestamp,
        }
    }
}

impl DiskMetrics {
    /// One filesystem's entry from its total and available space. The used space
    /// is the difference, and zero where more is reported available than in total.
    pub fn from_space(
        mount_point: String,
        filesystem_type: String,
        total_bytes: u64,
        available_bytes: u64,
        timestamp: Timestamp,
    ) -> (r: DiskMetrics)
        ensures
            r.mount_point == mount_point,
            r.filesystem_type == filesystem_type,
            r.total_bytes == total_bytes,
            r.available_bytes == available_bytes,
            r.used_bytes == if available_bytes <= total_bytes {
                total_bytes - available_bytes
            } else {
                0
            },
            r.usage_percent == percent_of(r.used_bytes as int, total_bytes as int),
            r.timestamp == timestamp,
    {
        let used_bytes = if available_bytes <= total_bytes {
            total_bytes - available_bytes
        } else {
            0
        };
        DiskMetrics {
            mount_point,
            filesystem_type,
            total_bytes,
            used_bytes,
            available_bytes,
            usage_percent: usage_percent(used_bytes, total_bytes),
            timestamp,
        }
    }
}

impl ProcessMetric {
    /// A copy of this process entry.
    pub fn duplicate(&self) -> (r: ProcessMetric)
        ensures
            r == *self,
    {
        ProcessMetric { pid: self.pid, name: self.name.clone(), cpu_usage: self.cpu_usage, memory: self.memory }
    }
}

/// Whether process `i` of `ps` ranks before process `j`: it is busier, or as
/// busy and listed earlier.
pub open spec fn ranks_before(ps: Seq<ProcessMetric>, i: int, j: int) -> bool {
    ps[i].cpu_usage > ps[j].cpu_usage || (ps[i].cpu_usage == ps[j].cpu_usage && i < j)
}

/// Whether `top` lists, in rank order, the processes of `ps` at the indices
/// `idx`, with every process left out ranking after all of them.
pub open spec fn busiest_of(ps: Seq<ProcessMetric>, idx: Seq<int>, top: Seq<ProcessMetric>) -> bool {
    &&& idx.len() == top.len()
    &&& forall|t: int| 0 <= t < idx.len() ==> 0 <= #[trigger] idx[t] < ps.len() && top[t] == ps[idx[t]]
    &&& forall|t: int, u: int| 0 <= t < u < idx.len() ==> ranks_before(ps, #[trigger] idx[t], #[trigger] idx[u])
    &&& forall|k: int, t: int|
        0 <= k < ps.len() && !idx.contains(k) && 0 <= t < idx.len() ==> #[trigger] ranks_before(
            ps,
            idx[t],
            k,
        )
}

impl ProcessesMetrics {
    /// The process summary of a full process list: its size, and its `limit`
    /// busiest entries by CPU, busiest first, ties in listing order.
    pub fn busiest(all: Vec<ProcessMetric>, limit: usize, timestamp: Timestamp) -> (r: ProcessesMetrics)
        ensures
            r.process_count == all@.len(),
            r.timestamp == timestamp,
            r.process_info@.len() == if limit < all@.len() { limit as int } else { all@.len() as int },
            exists|idx: Seq<int>| #[trigger] busiest_of(all@, idx, r.process_info@),
    {
        let n = all.len();
        let k = if limit < n { limit } else { n };
        let mut rest: Vec<usize> = Vec::new();
        let mut i: usize = 0;
        while i < n
            invariant
                n == all@.len(),
                i <= n,
                rest@.len() == i,
                forall|r: int| 0 <= r < i ==> #[trigger] rest@[r] == r,
            decreases n - i,
        {
            rest.push(i);
            i = i + 1;
        }
        let mut top: Vec<ProcessMetric> = Vec::new();
        let ghost mut idx: Seq<int> = Seq::empty();
        assert forall|u: int| 0 <= u < n && !idx.contains(u) implies exists|r: int|
            0 <= r < rest@.len() && #[trigger] rest@[r] == u by {
            assert(rest@[u] == u);
        }
        while top.len() < k
            invariant
                n == all@.len(),
                k <= n,
                top@.len() <= k,
                top@.len() == idx.len(),
                rest@.len() + idx.len() == n,
                forall|r: int| 0 <= r < rest@.len() ==> #[trigger] rest@[r] < n,
                forall|r: int, q: int| 0 <= r < q < rest@.len() ==> #[trigger] rest@[r] < #[trigger] rest@[q],
                forall|t: int| 0 <= t < idx.len() ==> 0 <= #[trigger] idx[t] < n && top@[t] == all@[idx[t]],
                forall|t: int, u: int| 0 <= t < u < idx.len() ==> ranks_before(all@, #[trigger] idx[t], #[trigger] idx[u]),
                forall|r: int, t: int|
                    0 <= r < rest@.len() && 0 <= t < idx.len() ==> ranks_before(
                        all@,
                        #[trigger] idx[t],
                        #[trigger] rest@[r] as int,
                    ),
                forall|u: int| 0 <= u < n && !idx.contains(u) ==> exists|r: int| 0 <= r < rest@.len() && #[trigger] rest@[r] == u,
            decreases k - top@.len(),
        {
            let mut b: usize = 0;
            let mut p: usize = 1;
            while p < rest.len()
                invariant
                    n == all@.len(),
                    b < p <= rest@.len(),
                    forall|r: int| 0 <= r < rest@.len() ==> #[trigger] rest@[r] < n,
                    forall|r: int, q: int| 0 <= r < q < rest@.len() ==> #[trigger] rest@[r] < #[trigger] rest@[q],
                    forall|q: int| 0 <= q < p && q != b ==> ranks_before(all@, rest@[b as int] as int, #[trigger] rest@[q] as int),
                decreases rest@.len() - p,
            {
                if all[rest[p]].cpu_usage > all[rest[b]].cpu_usage {
                    b = p;
                }
                p = p + 1;
            }
            let ghost before = rest@;
            let chosen = rest.remove(b);
            top.push(all[chosen].duplicate());
            proof {
                let old_idx = idx;
                idx = idx.push(chosen as int);
                assert forall|r: int, t: int|
                    0 <= r < rest@.len() && 0 <= t < idx.len() implies ranks_before(
                        all@,
                        #[trigger] idx[t],
                        #[trigger] rest@[r] as int,
                    ) by {
                    if r < b {
                        assert(rest@[r] == before[r]);
                    } else {
                        assert(rest@[r] == before[r + 1]);
                    }
                }
                assert forall|t: int, u: int| 0 <= t < u < idx.len() implies ranks_before(
                    all@,
                    #[trigger] idx[t],
                    #[trigger] idx[u],
                ) by {
                    if u == idx.len() - 1 {
                        assert(idx[u] == before[b as int]);
                        assert(idx[t] == old_idx[t]);
                    } else {
                        assert(idx[t] == old_idx[t]);
                        assert(idx[u] == old_idx[u]);
                    }
                }
                assert forall|u: int| 0 <= u < n && !idx.contains(u) implies exists|r: int|
                    0 <= r < rest@.len() && #[trigger] rest@[r] == u by {
                    assert(!old_idx.contains(u)) by {
                        if old_idx.contains(u) {
                            let w = choose|w: int| 0 <= w < old_idx.len() && old_idx[w] == u;
                            assert(idx[w] == u);
                        }
                    }
                    let r = choose|r: int| 0 <= r < before.len() && #[trigger] before[r] == u;
                    assert(u != chosen) by {
                        assert(idx[idx.len() - 1] == chosen);
                    }
                    if r < b {
                        assert(rest@[r] == u);
                    } else {
                        assert(r != b);
                        assert(rest@[r - 1] == u);
                    }
                }
                assert forall|t: int| 0 <= t < idx.len() implies 0 <= #[trigger] idx[t] < n && top@[t] == all@[idx[t]] by {
                    if t < old_idx.len() {
                        assert(idx[t] == old_idx[t]);
                    }
                }
            }
        }
        assert(busiest_of(all@, idx, top@));
        let ghost chosen_top = top@;
        let r = ProcessesMetrics { process_count: n, process_info: top, timestamp };
        assert(r.process_info@ == chosen_top);
        assert(busiest_of(all@, idx, r.process_info@));
        r
    }
}

} // verus!
