//! Start times of processes, computed from the system's boot time and each
//! process's start tick, with an explicit per-pid cache owned by the caller.
//! The caller reads the raw tick count from the system and hands it in; the
//! arithmetic and the cache live here.

use vstd::prelude::*;

verus! {

/// The first cached start time for a pid, if any.
pub open spec fn find_start(entries: Seq<(i32, u64)>, pid: i32) -> Option<u64>
    decreases entries.len(),
{
    if entries.len() == 0 {
        None
    } else if entries[0].0 == pid {
        Some(entries[0].1)
    } else {
        find_start(entries.drop_first(), pid)
    }
}

/// Start times of processes, keyed by pid.  Entries are added on first sight
/// and evicted when their pid disappears, so the cache never grows without
/// bound.
#[derive(Debug)]
pub struct ProcessUptimeCollector {
    pub cache: Vec<(i32, u64)>,
    /// Clock ticks per second of the system, at least one.
    pub clock_ticks_per_sec: u32,
    /// When the system booted, in seconds since the epoch.
    pub sys_start_time_secs: u64,
}

impl ProcessUptimeCollector {
    /// The cached entries, pid to start time, in insertion order.
    pub open spec fn entries(&self) -> Seq<(i32, u64)> {
        self.cache@
    }

    /// Build a collector from the system's raw ticks-per-second reading and
    /// its boot time.  A reading of zero, or one too large for the field,
    /// falls back to one tick per second rather than divide by zero later.
    pub fn new(ticks_per_sec_raw: u64, sys_start_time_secs: u64) -> (r: Self)
        ensures
            r.entries().len() == 0,
            r.clock_ticks_per_sec as int == (if 1 <= ticks_per_sec_raw <= u32::MAX as int {
                ticks_per_sec_raw as int
            } else {
                1
            }),
            r.sys_start_time_secs == sys_start_time_secs,
    {
        let tps: u32 = if ticks_per_sec_raw >= 1 && ticks_per_sec_raw <= u32::MAX as u64 {
            ticks_per_sec_raw as u32
        } else {
            1
        };
        ProcessUptimeCollector {
            cache: Vec::new(),
            clock_ticks_per_sec: tps,
            sys_start_time_secs,
        }
    }

    /// The start time a raw tick count denotes: boot time plus the ticks
    /// converted to seconds, or `None` when that leaves the representable
    /// range.
    pub fn start_time_from_ticks(&self, starttime_ticks: u64) -> (r: Option<u64>)
        requires
            self.clock_ticks_per_sec >= 1,
        ensures
            r == (if self.sys_start_time_secs + starttime_ticks as int
                / self.clock_ticks_per_sec as int <= u64::MAX {
                Some(
                    (self.sys_start_time_secs + starttime_ticks as int
                        / self.clock_ticks_per_sec as int) as u64,
                )
            } else {
                None::<u64>
            }),
    {
        let since_boot_secs = starttime_ticks / (self.clock_ticks_per_sec as u64);
        if self.sys_start_time_secs <= u64::MAX - since_boot_secs {
            Some(self.sys_start_time_secs + since_boot_secs)
        } else {
            None
        }
    }

    /// The cached start time for a pid, if one is known.
    pub fn lookup(&self, pid: i32) -> (r: Option<u64>)
        ensures
            r == find_start(self.entries(), pid),
    {
        let mut i: usize = 0;
        while i < self.cache.len()
            invariant
                i <= self.cache@.len(),
                forall|j: int| 0 <= j < i ==> (#[trigger] self.cache@[j]).0 != pid,
            decreases self.cache@.len() - i,
        {
            if self.cache[i].0 == pid {
                proof {
                    lemma_find_start_at(self.cache@, pid, i as int);
                }
                return Some(self.cache[i].1);
            }
            i += 1;
        }
        proof {
            lemma_find_start_none(self.cache@, pid);
        }
        None
    }

    /// Compute a pid's start time from its raw tick count and remember it.
    /// The entry is appended, so an earlier entry for the same pid keeps
    /// priority on lookup; when the conversion leaves the representable
    /// range, nothing is cached.
    pub fn record(&mut self, pid: i32, starttime_ticks: u64) -> (r: Option<u64>)
        requires
            old(self).clock_ticks_per_sec >= 1,
        ensures
            final(self).clock_ticks_per_sec == old(self).clock_ticks_per_sec,
            final(self).sys_start_time_secs == old(self).sys_start_time_secs,
            match r {
                Some(t) => final(self).entries() == old(self).entries().push((pid, t))
                    && old(self).start_time_from_ticks_spec(starttime_ticks) == Some(t),
                None => final(self).entries() == old(self).entries() && old(
                    self,
                ).start_time_from_ticks_spec(starttime_ticks) is None,
            },
    {
        match self.start_time_from_ticks(starttime_ticks) {
            Some(t) => {
                self.cache.push((pid, t));
                Some(t)
            },
            None => None,
        }
    }

    /// What `start_time_from_ticks` returns.
    pub open spec fn start_time_from_ticks_spec(&self, starttime_ticks: u64) -> Option<u64> {
        if self.sys_start_time_secs + starttime_ticks as int / self.clock_ticks_per_sec as int
            <= u64::MAX {
            Some(
                (self.sys_start_time_secs + starttime_ticks as int
                    / self.clock_ticks_per_sec as int) as u64,
            )
        } else {
            None
        }
    }

    /// Evict every entry whose pid is not among the live pids: the explicit
    /// invalidation policy that keeps the cache bounded.
    pub fn evict_absent(&mut self, live_pids: &Vec<i32>)
        ensures
            final(self).clock_ticks_per_sec == old(self).clock_ticks_per_sec,
            final(self).sys_start_time_secs == old(self).sys_start_time_secs,
            final(self).entries() == old(self).entries().filter(
                |e: (i32, u64)| live_pids@.contains(e.0),
            ),
    {
        let ghost pred = |e: (i32, u64)| live_pids@.contains(e.0);
        let mut kept: Vec<(i32, u64)> = Vec::new();
        let mut i: usize = 0;
        proof {
            reveal(Seq::filter);
            assert(kept@ =~= self.cache@.subrange(0, 0).filter(pred));
        }
        while i < self.cache.len()
            invariant
                i <= self.cache@.len(),
                kept@ == self.cache@.subrange(0, i as int).filter(pred),
                pred == (|e: (i32, u64)| live_pids@.contains(e.0)),
            decreases self.cache@.len() - i,
        {
            let entry = self.cache[i];
            let mut present = false;
            let mut j: usize = 0;
            while j < live_pids.len()
                invariant_except_break
                    !present,
                    j <= live_pids@.len(),
                    forall|k: int| 0 <= k < j ==> live_pids@[k] != entry.0,
                ensures
                    present == live_pids@.contains(entry.0),
                decreases live_pids@.len() - j,
            {
                if live_pids[j] == entry.0 {
                    present = true;
                    break;
                }
                j += 1;
            }
            proof {
                reveal(Seq::filter);
                let prefix = self.cache@.subrange(0, i as int);
                let next = self.cache@.subrange(0, i + 1);
                assert(next.drop_last() =~= prefix);
                assert(next.last() == self.cache@[i as int]);
            }
            if present {
                kept.push(entry);
            }
            i += 1;
        }
        proof {
            assert(self.cache@.subrange(0, self.cache@.len() as int) =~= self.cache@);
        }
        self.cache = kept;
    }
}

proof fn lemma_find_start_at(entries: Seq<(i32, u64)>, pid: i32, at: int)
    requires
        0 <= at < entries.len(),
        entries[at].0 == pid,
        forall|j: int| 0 <= j < at ==> (#[trigger] entries[j]).0 != pid,
    ensures
        find_start(entries, pid) == Some(entries[at].1),
    decreases at,
{
    if at > 0 {
        lemma_find_start_at(entries.drop_first(), pid, at - 1);
    }
}

proof fn lemma_find_start_none(entries: Seq<(i32, u64)>, pid: i32)
    requires
        forall|j: int| 0 <= j < entries.len() ==> (#[trigger] entries[j]).0 != pid,
    ensures
        find_start(entries, pid) is None,
    decreases entries.len(),
{
    if entries.len() > 0 {
        lemma_find_start_none(entries.drop_first(), pid);
    }
}

} // verus!
