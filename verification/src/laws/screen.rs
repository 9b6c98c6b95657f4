//! What the screen and the log show, character by character.
use vstd::prelude::*;
use crate::clock::SECOND;
use crate::logging::{file_text, lines_text, log_line, with_line};
use crate::text::{decimal, padded, two_digits};
use crate::tui::{
    bytes_text, delta_of, ends_program, nearest, newest_first, precision, recent, rounded,
    status_text, time_text, Status, TrafficSample,
};

verus! {

/// The nearest number to a quotient is at most half a unit away from it, and an even one where two
/// are equally near.
pub proof fn law_nearest_number(n: nat, d: nat)
    requires
        d > 0,
    ensures
        2 * n <= 2 * (nearest(n, d) * d) + d,
        2 * (nearest(n, d) * d) <= 2 * n + d,
        2 * n == 2 * (nearest(n, d) * d) + d || 2 * (nearest(n, d) * d) == 2 * n + d ==> nearest(
            n,
            d,
        ) % 2 == 0,
{
    let q = n / d;
    let r = n % d;
    assert(n == q * d + r && r < d) by (nonlinear_arith)
        requires
            d > 0,
            q == n / d,
            r == n % d,
    ;
    assert((q + 1) * d == q * d + d) by (nonlinear_arith);
}

/// An amount of data is written in the largest of the units B, KB, MB and GB that is not above it;
/// whole octets as they are, others with the nearest number of tenths or, for GB, of hundredths.
pub proof fn law_units_of_data(bytes: nat)
    ensures
        bytes < 1024 ==> bytes_text(bytes) == decimal(bytes) + " B"@,
        1024 <= bytes < 1024 * 1024 ==> {
            let t = nearest(10 * bytes, 1024);
            bytes_text(bytes) == decimal(t / 10) + "."@ + decimal(t % 10) + " KB"@
        },
        1024 * 1024 <= bytes < 1024 * 1024 * 1024 ==> {
            let t = nearest(10 * bytes, 1024 * 1024);
            bytes_text(bytes) == decimal(t / 10) + "."@ + decimal(t % 10) + " MB"@
        },
        bytes >= 1024 * 1024 * 1024 ==> {
            let t = nearest(100 * rounded(bytes), 1024 * 1024 * 1024);
            bytes_text(bytes) == decimal(t / 100) + "."@ + two_digits(t % 100) + " GB"@
        },
{
}

/// Amounts below 2 to the 53 are not rounded; larger ones are rounded to a multiple of a power of
/// two that leaves 53 binary digits, by at most half of it.
pub proof fn law_rounding_of_data(bytes: nat)
    ensures
        bytes < 0x20_0000_0000_0000 ==> rounded(bytes) == bytes,
        0x20_0000_0000_0000 <= bytes < 0x40_0000_0000_0000 ==> rounded(bytes) % 2 == 0 && bytes - 1
            <= rounded(bytes) <= bytes + 1,
        0x20_0000_0000_0000 <= bytes < 0x40_0000_0000_0000 && bytes % 2 == 1 ==> rounded(bytes) % 4
            == 0,
        0x40_0000_0000_0000 <= bytes < 0x80_0000_0000_0000 ==> rounded(bytes) % 4 == 0 && bytes - 2
            <= rounded(bytes) <= bytes + 2,
{
    assert(bytes / 1 == bytes && bytes % 1 == 0);
    if bytes >= 0x20_0000_0000_0000 {
        assert(precision(bytes, 1) == precision(bytes, 2));
        if bytes >= 0x40_0000_0000_0000 {
            assert(precision(bytes, 2) == precision(bytes, 4));
        }
    }
    if bytes < 0x20_0000_0000_0000 {
        assert(precision(bytes, 1) == 1);
    } else if bytes < 0x40_0000_0000_0000 {
        assert(precision(bytes, 2) == 2);
    } else if bytes < 0x80_0000_0000_0000 {
        assert(precision(bytes, 4) == 4);
    }
}

/// The unit to which an amount is rounded is the smallest power of two, from the given one on, that
/// leaves at most 53 binary digits.
pub proof fn law_unit_of_rounding(bytes: nat, unit: nat)
    requires
        unit > 0,
    ensures
        bytes / precision(bytes, unit) < 0x20_0000_0000_0000,
        bytes / unit < 0x20_0000_0000_0000 ==> precision(bytes, unit) == unit,
        bytes / unit >= 0x20_0000_0000_0000 ==> precision(bytes, unit) == precision(
            bytes,
            2 * unit,
        ),
        precision(bytes, unit) > 0,
    decreases bytes / unit,
{
    if bytes / unit >= 0x20_0000_0000_0000 {
        assert(bytes / (2 * unit) < bytes / unit) by (nonlinear_arith)
            requires
                unit > 0,
                bytes / unit >= 0x20_0000_0000_0000,
        ;
        law_unit_of_rounding(bytes, 2 * unit);
    }
}

/// A time of so many hours, minutes and seconds is written with two digits each, and with more for
/// the hours where they need them.
pub proof fn law_time_of_day(h: nat, m: nat, s: nat)
    requires
        m < 60,
        s < 60,
    ensures
        time_text(h * 3600 + m * 60 + s) == two_digits(h) + ":"@ + two_digits(m) + ":"@
            + two_digits(s),
        SECOND == 1_000_000_000,
{
    let t = h * 3600 + m * 60 + s;
    assert(t / 3600 == h);
    assert(t % 3600 == m * 60 + s);
    assert((t % 3600) / 60 == m);
    assert(t % 60 == s);
}

/// The status bar: each value behind its label, brought to a width of its own.
pub proof fn law_status_bar(tcp: nat, udp: nat, status: Status<'_>)
    ensures
        status_text(tcp, udp, status) == " TCP: "@ + padded(decimal(tcp), 5) + " | UDP: "@ + padded(
            decimal(udp),
            5,
        ) + " | UP: "@ + padded(status.up@, 8) + " | DOWN: "@ + padded(status.down@, 8)
            + " | UPS: "@ + padded(status.up_rate@, 9) + " | DNS: "@ + padded(status.down_rate@, 9)
            + " | TIME: "@ + padded(status.time@, 8) + " | CPU: "@ + padded(status.cpu@, 6)
            + " | MEM: "@ + padded(status.mem@, 8) + " "@,
{
}

/// As long as every value fits its width, each one ends in a column of its own, whatever the others
/// are.
pub proof fn law_columns_of_the_status_bar(tcp: nat, udp: nat, status: Status<'_>)
    requires
        decimal(tcp).len() <= 5,
        decimal(udp).len() <= 5,
        status.up@.len() <= 8,
        status.down@.len() <= 8,
        status.up_rate@.len() <= 9,
        status.down_rate@.len() <= 9,
        status.time@.len() <= 8,
        status.cpu@.len() <= 6,
        status.mem@.len() <= 8,
    ensures
        ({
            let line = status_text(tcp, udp, status);
            &&& line.len() == 138
            &&& line.subrange(11 - decimal(tcp).len(), 11) == decimal(tcp)
            &&& line.subrange(24 - decimal(udp).len(), 24) == decimal(udp)
            &&& line.subrange(39 - status.up@.len(), 39) == status.up@
            &&& line.subrange(56 - status.down@.len(), 56) == status.down@
            &&& line.subrange(73 - status.up_rate@.len(), 73) == status.up_rate@
            &&& line.subrange(90 - status.down_rate@.len(), 90) == status.down_rate@
            &&& line.subrange(107 - status.time@.len(), 107) == status.time@
            &&& line.subrange(121 - status.cpu@.len(), 121) == status.cpu@
            &&& line.subrange(137 - status.mem@.len(), 137) == status.mem@
        }),
{
    reveal_strlit(" TCP: ");
    reveal_strlit(" | UDP: ");
    reveal_strlit(" | UP: ");
    reveal_strlit(" | DOWN: ");
    reveal_strlit(" | UPS: ");
    reveal_strlit(" | DNS: ");
    reveal_strlit(" | TIME: ");
    reveal_strlit(" | CPU: ");
    reveal_strlit(" | MEM: ");
    reveal_strlit(" ");
    let line = status_text(tcp, udp, status);
    assert(line.subrange(11 - decimal(tcp).len(), 11) =~= decimal(tcp));
    assert(line.subrange(24 - decimal(udp).len(), 24) =~= decimal(udp));
    assert(line.subrange(39 - status.up@.len(), 39) =~= status.up@);
    assert(line.subrange(56 - status.down@.len(), 56) =~= status.down@);
    assert(line.subrange(73 - status.up_rate@.len(), 73) =~= status.up_rate@);
    assert(line.subrange(90 - status.down_rate@.len(), 90) =~= status.down_rate@);
    assert(line.subrange(107 - status.time@.len(), 107) =~= status.time@);
    assert(line.subrange(121 - status.cpu@.len(), 121) =~= status.cpu@);
    assert(line.subrange(137 - status.mem@.len(), 137) =~= status.mem@);
}

/// The keys that end the program, when they are pressed: `q`, and `c` together with the control
/// key.
pub proof fn law_keys_that_end_the_program(key: Option<char>, control: bool, other: char)
    ensures
        !ends_program(false, key, control),
        ends_program(true, Some('q'), control),
        ends_program(true, Some('c'), control) == control,
        other != 'q' && other != 'c' ==> !ends_program(true, Some(other), control),
        !ends_program(true, None, control),
{
}

/// What the samples tell is the difference between the first and the last of them, in each
/// direction and in time; a counter that went back counts as nothing. One sample tells nothing, nor
/// do samples of one moment.
pub proof fn law_traffic_between_samples(
    first: TrafficSample,
    mid: Seq<TrafficSample>,
    last: TrafficSample,
)
    ensures
        delta_of(seq![first]) is None,
        last.timestamp <= first.timestamp ==> delta_of(seq![first] + mid + seq![last]) is None,
        last.timestamp > first.timestamp ==> (delta_of(seq![first] + mid + seq![last]) matches Some(
            delta,
        ) && delta.span == last.timestamp - first.timestamp && delta.sent == (if last.bytes_sent
            > first.bytes_sent {
            last.bytes_sent - first.bytes_sent
        } else {
            0
        }) && delta.received == (if last.bytes_received > first.bytes_received {
            last.bytes_received - first.bytes_received
        } else {
            0
        })),
{
    let s = seq![first] + mid + seq![last];
    assert(s[0] == first);
    assert(s.last() == last);
}

/// A sample older than the window is dropped from the front, one that is not stays with all that
/// follow it.
pub proof fn law_old_samples_are_dropped(
    first: TrafficSample,
    rest: Seq<TrafficSample>,
    window: u64,
    now: u64,
)
    ensures
        recent(Seq::empty(), window, now) == Seq::<TrafficSample>::empty(),
        now - first.timestamp > window ==> recent(seq![first] + rest, window, now) == recent(
            rest,
            window,
            now,
        ),
        now - first.timestamp <= window ==> recent(seq![first] + rest, window, now) == seq![first]
            + rest,
{
    let s = seq![first] + rest;
    assert(s[0] == first);
    assert(s.skip(1) =~= rest);
}

/// A line of the log: the time in brackets, the level in brackets and in five columns, and the
/// message.
pub proof fn law_line_of_the_log(now: Seq<char>, level: Seq<char>, message: Seq<char>)
    ensures
        log_line(now, level, message) == seq!['['] + now + seq![']', ' ', '['] + padded(level, 5)
            + seq![']', ' '] + message,
{
    reveal_strlit("[");
    reveal_strlit("] [");
    reveal_strlit("] ");
    assert("["@ =~= seq!['[']);
    assert("] ["@ =~= seq![']', ' ', '[']);
    assert("] "@ =~= seq![']', ' ']);
}

/// The log holds up to 50 lines: a new one comes last, and the oldest one goes if there would be
/// more.
pub proof fn law_lines_of_the_log(lines: Seq<Seq<char>>, line: Seq<char>)
    ensures
        lines.len() < 50 ==> with_line(lines, line) == lines.push(line),
        lines.len() >= 50 ==> with_line(lines, line) == lines.skip(1).push(line),
{
    if lines.len() >= 50 {
        assert(lines.push(line).skip(1) =~= lines.skip(1).push(line));
    }
}

/// The lines keep their order when they are read as text.
pub proof fn law_lines_as_text(lines: Seq<String>, i: int)
    requires
        0 <= i < lines.len(),
    ensures
        lines_text(lines).len() == lines.len(),
        lines_text(lines)[i] == lines[i]@,
{
}

/// The screen shows the newest line first, then the one before it, and so on, as many as there is
/// room for.
pub proof fn law_lines_on_the_screen(lines: Seq<String>, height: nat, i: int)
    ensures
        newest_first(lines, height).len() == if lines.len() < height {
            lines.len()
        } else {
            height
        },
        0 <= i < newest_first(lines, height).len() ==> newest_first(lines, height)[i]
            == lines[lines.len() - 1 - i],
{
}

/// A line is written to the file, if there is one, with the end of a line behind it.
pub proof fn law_lines_in_the_file(line: Seq<char>)
    ensures
        file_text(false, line) is None,
        file_text(true, line) matches Some(out) && out.len() == line.len() + 1 && out.drop_last()
            == line && out.last() == '\n',
{
    assert(line.push('\n').drop_last() =~= line);
}

} // verus!
