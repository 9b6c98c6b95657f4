//! What the screen shows, as text, and when the program ends.
use vstd::prelude::*;
use vstd::string::StringExecFns;
use std::collections::VecDeque;
use crate::clock;
use crate::clock::{time_since, SECOND};
use crate::text;
use crate::text::{append_padded, decimal, padded, two_digits};

verus! {

/// The number nearest to `n / d`; of two that are equally near, the even one.
pub open spec fn nearest(n: nat, d: nat) -> nat {
    let q = n / d;
    let r = n % d;
    if 2 * r < d || (2 * r == d && q % 2 == 0) {
        q
    } else {
        q + 1
    }
}

fn divide_nearest(n: u128, d: u128) -> (r: u128)
    requires
        0 < d < 0x1_0000_0000,
        n < 0x1_0000_0000_0000_0000_0000_0000,
    ensures
        r == nearest(n as nat, d as nat),
{
    let q: u128 = n / d;
    let rest: u128 = n % d;
    assert(q <= n && rest < d) by (nonlinear_arith)
        requires
            d > 0,
            q == n / d,
            rest == n % d,
    ;
    if 2 * rest < d || (2 * rest == d && q % 2 == 0) {
        q
    } else {
        q + 1
    }
}

/// The smallest power of two, not below `unit`, in which `bytes` has at most 53 binary digits.
pub open spec fn precision(bytes: nat, unit: nat) -> nat
    decreases bytes / unit,
{
    if unit == 0 || bytes / unit < 0x20_0000_0000_0000 {
        unit
    } else {
        proof {
            assert(bytes / (2 * unit) < bytes / unit) by (nonlinear_arith)
                requires
                    unit > 0,
                    bytes / unit >= 0x20_0000_0000_0000,
            ;
        }
        precision(bytes, 2 * unit)
    }
}

/// `bytes` to 53 binary digits.
pub open spec fn rounded(bytes: nat) -> nat {
    nearest(bytes, precision(bytes, 1)) * precision(bytes, 1)
}

/// `bytes` in units of `unit`, with one digit behind the point.
pub open spec fn one_decimal(bytes: nat, unit: nat) -> Seq<char> {
    let tenths = nearest(10 * bytes, unit);
    decimal(tenths / 10) + "."@ + decimal(tenths % 10)
}

/// `bytes`, to 53 binary digits, in units of `unit`, with two digits behind the point.
pub open spec fn two_decimals(bytes: nat, unit: nat) -> Seq<char> {
    let hundredths = nearest(100 * rounded(bytes), unit);
    decimal(hundredths / 100) + "."@ + two_digits(hundredths % 100)
}

/// An amount of data, in the largest unit that is not above it.
pub open spec fn bytes_text(bytes: nat) -> Seq<char> {
    if bytes < 0x400 {
        decimal(bytes) + " B"@
    } else if bytes < 0x10_0000 {
        one_decimal(bytes, 0x400) + " KB"@
    } else if bytes < 0x4000_0000 {
        one_decimal(bytes, 0x10_0000) + " MB"@
    } else {
        two_decimals(bytes, 0x4000_0000) + " GB"@
    }
}

/// One of 1, 2, 4 and so on up to 2048.
spec fn power_of_two_to_2048(unit: u64) -> bool {
    ||| unit == 1
    ||| unit == 2
    ||| unit == 4
    ||| unit == 8
    ||| unit == 16
    ||| unit == 32
    ||| unit == 64
    ||| unit == 128
    ||| unit == 256
    ||| unit == 512
    ||| unit == 1024
    ||| unit == 2048
}

fn round_bytes(bytes: u64) -> (r: u128)
    ensures
        r == rounded(bytes as nat),
        r <= 0x1_0000_0000_0000_0000,
{
    let mut unit: u64 = 1;
    while bytes / unit >= 0x20_0000_0000_0000
        invariant
            power_of_two_to_2048(unit),
            precision(bytes as nat, 1) == precision(bytes as nat, unit as nat),
        decreases 0x800 - unit,
    {
        assert(unit != 0x800);
        unit = unit * 2;
    }
    assert(precision(bytes as nat, 1) == unit);
    let n: u128 = divide_nearest(bytes as u128, unit as u128);
    assert(n <= 0x20_0000_0000_0000);
    assert(n * unit <= 0x1_0000_0000_0000_0000) by (nonlinear_arith)
        requires
            n <= 0x20_0000_0000_0000,
            unit <= 0x800,
    ;
    n * unit as u128
}

fn append_one_decimal(out: &mut String, bytes: u64, unit: u128)
    requires
        unit == 0x400 || unit == 0x10_0000,
        bytes < 0x4000_0000,
    ensures
        final(out)@ == old(out)@ + one_decimal(bytes as nat, unit as nat),
{
    let tenths: u128 = divide_nearest(10 * bytes as u128, unit);
    assert(tenths <= 10 * bytes + 1) by {
        assert((10 * bytes) as nat / unit as nat <= 10 * bytes) by (nonlinear_arith)
            requires
                unit >= 1,
        ;
    }
    text::append_decimal(out, (tenths / 10) as u64);
    out.append(".");
    text::append_decimal(out, (tenths % 10) as u64);
    assert(out@ =~= old(out)@ + one_decimal(bytes as nat, unit as nat));
}

fn append_two_decimals(out: &mut String, bytes: u64)
    ensures
        final(out)@ == old(out)@ + two_decimals(bytes as nat, 0x4000_0000),
{
    let hundredths: u128 = divide_nearest(100 * round_bytes(bytes), 0x4000_0000);
    assert(hundredths <= 0x1_0000_0000_0000);
    text::append_decimal(out, (hundredths / 100) as u64);
    out.append(".");
    text::append_two_digits(out, (hundredths % 100) as u64);
    assert(out@ =~= old(out)@ + two_decimals(bytes as nat, 0x4000_0000));
}

/// A time in hours, minutes and seconds, each with at least two digits.
pub open spec fn time_text(seconds: nat) -> Seq<char> {
    two_digits(seconds / 3600) + ":"@ + two_digits((seconds % 3600) / 60) + ":"@ + two_digits(
        seconds % 60,
    )
}

/// The traffic up to a moment.
#[derive(Clone, Copy, Debug, PartialEq, Eq, Structural)]
pub struct TrafficSample {
    pub timestamp: u64,
    pub bytes_sent: u64,
    pub bytes_received: u64,
}

/// How much went each way in a span of time, in nanoseconds.
#[derive(Clone, Copy, Debug, PartialEq, Eq, Structural)]
pub struct TrafficDelta {
    pub sent: u64,
    pub received: u64,
    pub span: u64,
}

/// The samples of the last moments.
pub struct TrafficSampler {
    pub window: u64,
    pub samples: VecDeque<TrafficSample>,
}

/// The samples from the first one on that is not too old.
pub open spec fn recent(samples: Seq<TrafficSample>, window: u64, now: u64) -> Seq<TrafficSample>
    decreases samples.len(),
{
    if samples.len() > 0 && time_since(now, samples[0].timestamp) > window {
        recent(samples.skip(1), window, now)
    } else {
        samples
    }
}

/// What the oldest and the newest of the samples tell: nothing if they are one sample, or of
/// the same moment.
pub open spec fn delta_of(samples: Seq<TrafficSample>) -> Option<TrafficDelta> {
    let oldest = samples[0];
    let newest = samples.last();
    let span = time_since(newest.timestamp, oldest.timestamp);
    if samples.len() < 2 || span == 0 {
        None
    } else {
        Some(
            TrafficDelta {
                sent: newest.bytes_sent.saturating_sub(oldest.bytes_sent),
                received: newest.bytes_received.saturating_sub(oldest.bytes_received),
                span,
            },
        )
    }
}

impl TrafficSampler {
    /// No samples. Those that are older than `window` will be dropped.
    pub fn new(window: u64) -> (r: Self)
        ensures
            r.window == window,
            r.samples@ == Seq::<TrafficSample>::empty(),
    {
        TrafficSampler { window, samples: VecDeque::new() }
    }

    /// Takes a sample at `now`, and tells how much traffic there was since the oldest sample
    /// that is not too old.
    pub fn sample(&mut self, bytes_sent: u64, bytes_received: u64, now: u64) -> (r: Option<
        TrafficDelta,
    >)
        ensures
            final(self).window == old(self).window,
            final(self).samples@ == recent(
                old(self).samples@.push(
                    TrafficSample { timestamp: now, bytes_sent, bytes_received },
                ),
                old(self).window,
                now,
            ),
            r == delta_of(final(self).samples@),
    {
        self.samples.push_back(TrafficSample { timestamp: now, bytes_sent, bytes_received });
        let ghost all = self.samples@;
        while self.samples.len() > 0 && clock::elapsed(now, self.samples[0].timestamp)
            > self.window
            invariant
                self.window == old(self).window,
                recent(all, self.window, now) == recent(self.samples@, self.window, now),
            decreases self.samples@.len(),
        {
            assert(self.samples@.subrange(1, self.samples@.len() as int) =~= self.samples@.skip(
                1,
            ));
            let _ = self.samples.pop_front();
        }
        let n: usize = self.samples.len();
        if n < 2 {
            return None;
        }
        let oldest = self.samples[0];
        let newest = self.samples[n - 1];
        let span: u64 = clock::elapsed(newest.timestamp, oldest.timestamp);
        if span == 0 {
            return None;
        }
        Some(
            TrafficDelta {
                sent: newest.bytes_sent.saturating_sub(oldest.bytes_sent),
                received: newest.bytes_received.saturating_sub(oldest.bytes_received),
                span,
            },
        )
    }
}

/// The values of the status bar, as text.
pub struct Status<'a> {
    pub up: &'a str,
    pub down: &'a str,
    pub up_rate: &'a str,
    pub down_rate: &'a str,
    pub time: &'a str,
    pub cpu: &'a str,
    pub mem: &'a str,
}

/// The status bar.
pub open spec fn status_text(tcp: nat, udp: nat, status: Status<'_>) -> Seq<char> {
    " TCP: "@ + padded(decimal(tcp), 5) + " | UDP: "@ + padded(decimal(udp), 5) + " | UP: "@
        + padded(status.up@, 8) + " | DOWN: "@ + padded(status.down@, 8) + " | UPS: "@ + padded(
        status.up_rate@,
        9,
    ) + " | DNS: "@ + padded(status.down_rate@, 9) + " | TIME: "@ + padded(status.time@, 8)
        + " | CPU: "@ + padded(status.cpu@, 6) + " | MEM: "@ + padded(status.mem@, 8) + " "@
}

fn append_padded_number(out: &mut String, n: usize, width: usize)
    ensures
        final(out)@ == old(out)@ + padded(decimal(n as nat), width as nat),
{
    let mut number = String::new();
    text::append_decimal(&mut number, n as u64);
    assert(number@ =~= decimal(n as nat));
    append_padded(out, number.as_str(), width);
}

/// Writes the status bar.
pub fn status_line(tcp: usize, udp: usize, status: &Status<'_>) -> (r: String)
    ensures
        r@ == status_text(tcp as nat, udp as nat, *status),
{
    let mut out = " TCP: ".to_owned();
    append_padded_number(&mut out, tcp, 5);
    out.append(" | UDP: ");
    append_padded_number(&mut out, udp, 5);
    out.append(" | UP: ");
    append_padded(&mut out, status.up, 8);
    out.append(" | DOWN: ");
    append_padded(&mut out, status.down, 8);
    out.append(" | UPS: ");
    append_padded(&mut out, status.up_rate, 9);
    out.append(" | DNS: ");
    append_padded(&mut out, status.down_rate, 9);
    out.append(" | TIME: ");
    append_padded(&mut out, status.time, 8);
    out.append(" | CPU: ");
    append_padded(&mut out, status.cpu, 6);
    out.append(" | MEM: ");
    append_padded(&mut out, status.mem, 8);
    out.append(" ");
    out
}

/// The last `height` lines, or all of them if there are fewer, the newest first.
pub open spec fn newest_first(lines: Seq<String>, height: nat) -> Seq<String> {
    if lines.len() <= height {
        lines.reverse()
    } else {
        lines.reverse().take(height as int)
    }
}

/// The lines of the log that the screen has room for, the newest first.
pub fn visible_logs(logs: &Vec<String>, height: u16) -> (r: Vec<String>)
    ensures
        r@.len() == if logs@.len() < height {
            logs@.len()
        } else {
            height as nat
        },
        forall|i: int| 0 <= i < r@.len() ==> #[trigger] r@[i] == logs@[logs@.len() - 1 - i],
        r@ == newest_first(logs@, height as nat),
{
    let n: usize = logs.len();
    let mut r: Vec<String> = Vec::new();
    let mut i: usize = 0;
    while i < n && i < height as usize
        invariant
            n == logs@.len(),
            i <= n,
            i <= height,
            r@.len() == i,
            forall|k: int| 0 <= k < i ==> #[trigger] r@[k] == logs@[n - 1 - k],
        decreases n - i,
    {
        r.push(logs[n - 1 - i].clone());
        i += 1;
    }
    assert(r@ =~= newest_first(logs@, height as nat));
    r
}

/// A key that ends the program: `q`, or `c` together with the control key.
pub open spec fn ends_program(pressed: bool, key: Option<char>, control: bool) -> bool {
    pressed && (key == Some('q') || (key == Some('c') && control))
}

/// What the screen remembers.
pub struct TuiState {
    pub shutdown: bool,
    pub traffic_sampler: TrafficSampler,
}

impl TuiState {
    /// The program goes on, and there is no traffic yet. Rates are told over five seconds.
    pub fn new() -> (r: Self)
        ensures
            !r.shutdown,
            r.traffic_sampler.window == 5 * SECOND,
            r.traffic_sampler.samples@ == Seq::<TrafficSample>::empty(),
    {
        TuiState { shutdown: false, traffic_sampler: TrafficSampler::new(5 * SECOND) }
    }

    /// Writes an amount of data.
    pub fn format_bytes(&self, bytes: u64) -> (r: String)
        ensures
            r@ == bytes_text(bytes as nat),
    {
        let mut out = String::new();
        if bytes < 0x400 {
            text::append_decimal(&mut out, bytes);
            out.append(" B");
        } else if bytes < 0x10_0000 {
            append_one_decimal(&mut out, bytes, 0x400);
            out.append(" KB");
        } else if bytes < 0x4000_0000 {
            append_one_decimal(&mut out, bytes, 0x10_0000);
            out.append(" MB");
        } else {
            append_two_decimals(&mut out, bytes);
            out.append(" GB");
        }
        assert(out@ =~= bytes_text(bytes as nat));
        out
    }

    /// Writes a rate in whole bytes per second.
    pub fn format_rate(&self, bytes_per_sec: u64) -> (r: String)
        ensures
            r@ == bytes_text(bytes_per_sec as nat) + "/s"@,
    {
        let mut out = self.format_bytes(bytes_per_sec);
        out.append("/s");
        out
    }

    /// Writes a time, given in nanoseconds, as hours, minutes and seconds.
    pub fn format_time(&self, duration: u64) -> (r: String)
        ensures
            r@ == time_text(duration as nat / SECOND as nat),
    {
        let total_secs: u64 = duration / SECOND;
        let mut out = String::new();
        text::append_two_digits(&mut out, total_secs / 3600);
        out.append(":");
        text::append_two_digits(&mut out, (total_secs % 3600) / 60);
        out.append(":");
        text::append_two_digits(&mut out, total_secs % 60);
        assert(out@ =~= time_text(duration as nat / SECOND as nat));
        out
    }

    /// Tells the program to end.
    pub fn request_shutdown(&mut self)
        ensures
            *final(self) == (TuiState { shutdown: true, ..*old(self) }),
    {
        self.shutdown = true;
    }

    /// Whether the program is to end.
    pub fn should_shutdown(&self) -> (r: bool)
        ensures
            r == self.shutdown,
    {
        self.shutdown
    }

    /// Takes a key. `key` is the character on it, if it has one.
    pub fn handle_key(&mut self, pressed: bool, key: Option<char>, control: bool) -> (r: bool)
        ensures
            r == ends_program(pressed, key, control),
            *final(self) == (TuiState { shutdown: old(self).shutdown || r, ..*old(self) }),
    {
        let ends = pressed && match key {
            Some(c) => c == 'q' || (c == 'c' && control),
            None => false,
        };
        if ends {
            self.request_shutdown();
        }
        ends
    }

    /// Takes a sample of the traffic at `now`, and tells how much there was lately.
    pub fn get_traffic_rates(&mut self, bytes_sent: u64, bytes_received: u64, now: u64) -> (r:
        Option<TrafficDelta>)
        ensures
            final(self).shutdown == old(self).shutdown,
            final(self).traffic_sampler.window == old(self).traffic_sampler.window,
            final(self).traffic_sampler.samples@ == recent(
                old(self).traffic_sampler.samples@.push(
                    TrafficSample { timestamp: now, bytes_sent, bytes_received },
                ),
                old(self).traffic_sampler.window,
                now,
            ),
            r == delta_of(final(self).traffic_sampler.samples@),
    {
        self.traffic_sampler.sample(bytes_sent, bytes_received, now)
    }
}

/// The samples were taken one after the other.
pub open spec fn in_order(samples: Seq<TrafficSample>) -> bool {
    forall|i: int, j: int|
        0 <= i < j < samples.len() ==> samples[i].timestamp <= samples[j].timestamp
}

/// Rates are told of the last moments alone: no sample that is kept is too old, no sample that
/// is young enough is dropped, and the newest one is always kept.
pub proof fn law_samples_are_recent(samples: Seq<TrafficSample>, window: u64, now: u64)
    requires
        in_order(samples),
        samples.len() > 0,
        samples.last().timestamp <= now,
        now - samples.last().timestamp <= window,
    ensures
        recent(samples, window, now).len() > 0,
        recent(samples, window, now).last() == samples.last(),
        forall|i: int|
            0 <= i < recent(samples, window, now).len() ==> time_since(
                now,
                (#[trigger] recent(samples, window, now)[i]).timestamp,
            ) <= window,
        forall|i: int|
            0 <= i < samples.len() && time_since(now, (#[trigger] samples[i]).timestamp) <= window
                ==> recent(samples, window, now).contains(samples[i]),
    decreases samples.len(),
{
    if time_since(now, samples[0].timestamp) > window {
        let rest = samples.skip(1);
        assert(in_order(rest)) by {
            assert forall|i: int, j: int| 0 <= i < j < rest.len() implies rest[i].timestamp
                <= rest[j].timestamp by {
                assert(rest[i] == samples[i + 1] && rest[j] == samples[j + 1]);
            }
        }
        assert(rest.last() == samples.last());
        law_samples_are_recent(rest, window, now);
        assert forall|i: int|
            0 <= i < samples.len() && time_since(now, (#[trigger] samples[i]).timestamp)
                <= window implies recent(samples, window, now).contains(samples[i]) by {
            assert(i > 0);
            assert(rest[i - 1] == samples[i]);
        }
    } else {
        assert forall|i: int| 0 <= i < samples.len() implies time_since(
            now,
            (#[trigger] samples[i]).timestamp,
        ) <= window by {
            if i > 0 {
                assert(samples[0].timestamp <= samples[i].timestamp);
            }
        }
    }
}

} // verus!
