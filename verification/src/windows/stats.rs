//! How much of the processor this program uses.
use vstd::prelude::*;
use crate::clock;
use crate::clock::time_since;

verus! {

/// A 64-bit number that the system gives in two halves.
pub open spec fn joined(high: u32, low: u32) -> u64 {
    (high * 0x1_0000_0000 + low) as u64
}

/// Joins the two halves of a 64-bit number.
pub fn filetime_to_u64(high: u32, low: u32) -> (r: u64)
    ensures
        r == joined(high, low),
{
    high as u64 * 0x1_0000_0000 + low as u64
}

/// The time that the processors spent on this program, in units of 100 nanoseconds: in the
/// system's kernel and in the program itself.
pub fn get_process_time_100ns(
    kernel_high: u32,
    kernel_low: u32,
    user_high: u32,
    user_low: u32,
) -> (r: u64)
    requires
        joined(kernel_high, kernel_low) + joined(user_high, user_low) <= u64::MAX,
    ensures
        r == joined(kernel_high, kernel_low) + joined(user_high, user_low),
{
    filetime_to_u64(kernel_high, kernel_low) + filetime_to_u64(user_high, user_low)
}

/// What the share of the processor follows from, both in units of 100 nanoseconds: the time
/// that the processors spent on this program, and the time that went by.
#[derive(Clone, Copy, Debug, PartialEq, Eq, Structural)]
pub struct CpuUsage {
    pub process_100ns: u64,
    pub wall_100ns: u64,
}

/// The last sample that counted. No processor time means that there was none yet.
#[derive(Clone, Copy, Debug, PartialEq, Eq, Structural)]
pub struct CpuSampler {
    pub last_instant: u64,
    pub last_process_100ns: u64,
}

/// What a sample tells of the time since the last one. The first sample tells nothing, nor does
/// one that comes too soon or without the processor time.
pub open spec fn usage_since(last: CpuSampler, process_time: Option<u64>, now: u64) -> Option<
    CpuUsage,
> {
    match process_time {
        Some(t) if last.last_process_100ns != 0 && time_since(now, last.last_instant) >= 100 => Some(
            CpuUsage {
                process_100ns: t.saturating_sub(last.last_process_100ns),
                wall_100ns: time_since(now, last.last_instant) / 100,
            },
        ),
        _ => None,
    }
}

/// The last sample that counts afterwards.
pub open spec fn sampled(last: CpuSampler, process_time: Option<u64>, now: u64) -> CpuSampler {
    match process_time {
        Some(t) if last.last_process_100ns == 0 || usage_since(last, process_time, now)
            is Some => CpuSampler { last_instant: now, last_process_100ns: t },
        _ => last,
    }
}

impl CpuSampler {
    /// No sample yet.
    pub fn new(now: u64) -> (r: Self)
        ensures
            r == (CpuSampler { last_instant: now, last_process_100ns: 0 }),
    {
        CpuSampler { last_instant: now, last_process_100ns: 0 }
    }

    /// Takes a sample at `now`. `None` means that the processor time is not known.
    pub fn sample(&mut self, process_time: Option<u64>, now: u64) -> (r: Option<CpuUsage>)
        ensures
            r == usage_since(*old(self), process_time, now),
            *final(self) == sampled(*old(self), process_time, now),
    {
        let process_time: u64 = match process_time {
            Some(value) => value,
            None => return None,
        };
        if self.last_process_100ns == 0 {
            self.last_process_100ns = process_time;
            self.last_instant = now;
            return None;
        }
        let process_100ns: u64 = process_time.saturating_sub(self.last_process_100ns);
        let wall_100ns: u64 = clock::elapsed(now, self.last_instant) / 100;
        if wall_100ns == 0 {
            return None;
        }
        self.last_process_100ns = process_time;
        self.last_instant = now;
        Some(CpuUsage { process_100ns, wall_100ns })
    }
}

/// The use of the machine by this program.
#[derive(Clone, Copy, Debug, PartialEq, Eq, Structural)]
pub struct WindowsSystemStats {
    pub cpu_sampler: CpuSampler,
}

impl WindowsSystemStats {
    /// No sample yet.
    pub fn new(now: u64) -> (r: Self)
        ensures
            r.cpu_sampler == (CpuSampler { last_instant: now, last_process_100ns: 0 }),
    {
        WindowsSystemStats { cpu_sampler: CpuSampler::new(now) }
    }
}

/// The samples that count cover the time without gap or overlap: what the second of two tells is
/// told of the time since the first.
pub proof fn law_samples_follow_on(
    last: CpuSampler,
    t1: u64,
    t2: u64,
    now1: u64,
    now2: u64,
)
    requires
        last.last_process_100ns == 0 || usage_since(last, Some(t1), now1) is Some,
        0 < t1 <= t2,
        now1 + 100 <= now2,
    ensures
        usage_since(sampled(last, Some(t1), now1), Some(t2), now2) == Some(
            CpuUsage { process_100ns: (t2 - t1) as u64, wall_100ns: ((now2 - now1) / 100) as u64 },
        ),
{
}

} // verus!
