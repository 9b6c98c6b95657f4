use proxifyre::logging::{flush, format_line, TuiLogger};
use proxifyre::net::{IpAddr, Ipv4Addr, Ipv6Addr, SocketAddr};
use proxifyre::router::packet::PacketKind;
use proxifyre::tui::{status_line, visible_logs, Status, TrafficDelta, TrafficSampler, TuiState};
use proxifyre::windows::process::{
    is_stale, is_table_complete, process_path_text, LookupStep, WindowsProcessLookup,
};
use proxifyre::windows::stats::{
    filetime_to_u64, get_process_time_100ns, CpuSampler, CpuUsage, WindowsSystemStats,
};

const SECOND: u64 = 1_000_000_000;

fn v4(a: u8, b: u8, c: u8, d: u8) -> IpAddr {
    IpAddr::V4(Ipv4Addr::new(a, b, c, d))
}

fn v6(last: u8) -> IpAddr {
    let mut octets = [0u8; 16];
    octets[15] = last;
    IpAddr::V6(Ipv6Addr { octets })
}

fn tcp4_row(local: [u8; 4], lport: u16, remote: [u8; 4], rport: u16, pid: u32) -> Vec<u8> {
    let mut row = vec![5, 0, 0, 0];
    row.extend_from_slice(&local);
    row.extend_from_slice(&lport.to_be_bytes());
    row.extend_from_slice(&[0xaa, 0xbb]);
    row.extend_from_slice(&remote);
    row.extend_from_slice(&rport.to_be_bytes());
    row.extend_from_slice(&[0, 0]);
    row.extend_from_slice(&pid.to_le_bytes());
    row
}

fn table(rows: &[Vec<u8>]) -> Vec<u8> {
    let mut t = (rows.len() as u32).to_le_bytes().to_vec();
    for row in rows {
        t.extend_from_slice(row);
    }
    t
}

#[test]
fn a_tcp_process_is_found_and_kept() {
    let mut lookup = WindowsProcessLookup::new();
    let src = SocketAddr::new(v4(192, 0, 2, 10), 50000);
    let dst = SocketAddr::new(v4(203, 0, 113, 7), 443);
    assert_eq!(
        lookup.find_process_path(false, src, dst, 0),
        LookupStep::Refresh(PacketKind::TcpV4)
    );
    let rows = table(&[
        tcp4_row([192, 0, 2, 10], 50000, [203, 0, 113, 7], 443, 1),
        tcp4_row([192, 0, 2, 10], 50001, [203, 0, 113, 7], 443, 2),
        tcp4_row([192, 0, 2, 10], 50000, [203, 0, 113, 7], 443, 0x01020304),
    ]);
    assert!(is_table_complete(PacketKind::TcpV4, &rows));
    assert_eq!(
        lookup.sessions_refreshed(PacketKind::TcpV4, Some(&rows), src, dst, 0),
        LookupStep::QueryPath(0x01020304)
    );
    lookup.path_found(0x01020304, "firefox".to_string(), 0);
    assert_eq!(
        lookup.find_process_path(false, src, dst, SECOND / 2),
        LookupStep::Found("firefox".to_string())
    );
    assert_eq!(
        lookup.find_process_path(false, src, dst, SECOND / 2 + 1),
        LookupStep::Refresh(PacketKind::TcpV4)
    );
    let unknown = SocketAddr::new(v4(192, 0, 2, 10), 9);
    assert_eq!(
        lookup.find_process_path(false, unknown, dst, 0),
        LookupStep::Refresh(PacketKind::TcpV4)
    );
    assert_eq!(
        lookup.sessions_refreshed(PacketKind::TcpV4, None, unknown, dst, 0),
        LookupStep::NotFound
    );
    assert_eq!(
        lookup.sessions_refreshed(PacketKind::TcpV4, Some(&rows), unknown, dst, 0),
        LookupStep::NotFound
    );
}

#[test]
fn mixed_families_have_no_tcp_process() {
    let mut lookup = WindowsProcessLookup::new();
    let four = SocketAddr::new(v4(1, 2, 3, 4), 1);
    let six = SocketAddr::new(v6(1), 1);
    assert_eq!(lookup.find_process_path(false, four, six, 0), LookupStep::NotFound);
    assert_eq!(lookup.find_process_path(false, six, four, 0), LookupStep::NotFound);
    assert_eq!(
        lookup.find_process_path(true, six, four, 0),
        LookupStep::Refresh(PacketKind::UdpV6)
    );
    assert_eq!(
        lookup.find_process_path(true, four, six, 0),
        LookupStep::Refresh(PacketKind::UdpV4)
    );
}

#[test]
fn udp_sockets_may_be_bound_to_all_addresses() {
    let mut lookup = WindowsProcessLookup::new();
    let mut exact = vec![192, 0, 2, 10];
    exact.extend_from_slice(&[0xcf, 0x08, 0, 0, 7, 0, 0, 0]);
    let mut any = vec![0, 0, 0, 0];
    any.extend_from_slice(&[0xcf, 0x08, 0, 0, 8, 0, 0, 0]);
    let rows = table(&[exact, any]);
    let dst = SocketAddr::new(v4(203, 0, 113, 7), 53);
    let bound = SocketAddr::new(v4(192, 0, 2, 10), 53000);
    assert_eq!(
        lookup.sessions_refreshed(PacketKind::UdpV4, Some(&rows), bound, dst, 0),
        LookupStep::QueryPath(7)
    );
    let other = SocketAddr::new(v4(192, 0, 2, 11), 53000);
    assert_eq!(lookup.find_process_path(true, other, dst, 0), LookupStep::QueryPath(8));
    let other_port = SocketAddr::new(v4(192, 0, 2, 11), 53001);
    assert_eq!(
        lookup.find_process_path(true, other_port, dst, 0),
        LookupStep::Refresh(PacketKind::UdpV4)
    );
}

#[test]
fn ipv6_tables_are_read() {
    let mut lookup = WindowsProcessLookup::new();
    let src = SocketAddr::new(v6(1), 50000);
    let dst = SocketAddr::new(v6(2), 443);
    let mut row = vec![0u8; 56];
    row[15] = 1;
    row[20] = 0xc3;
    row[21] = 0x50;
    row[39] = 2;
    row[44] = 0x01;
    row[45] = 0xbb;
    row[52] = 9;
    let rows = table(&[row]);
    assert_eq!(
        lookup.sessions_refreshed(PacketKind::TcpV6, Some(&rows), src, dst, 0),
        LookupStep::QueryPath(9)
    );
    let mut row = vec![0u8; 28];
    row[20] = 0xc3;
    row[21] = 0x50;
    row[25] = 1;
    let rows = table(&[row]);
    assert_eq!(
        lookup.sessions_refreshed(PacketKind::UdpV6, Some(&rows), src, dst, 0),
        LookupStep::QueryPath(256)
    );
}

#[test]
fn short_tables_are_noticed() {
    assert!(!is_table_complete(PacketKind::TcpV4, &[]));
    assert!(is_table_complete(PacketKind::TcpV4, &[0, 0, 0, 0]));
    assert!(!is_table_complete(PacketKind::UdpV4, &[1, 0, 0, 0, 0, 0]));
    let mut udp = vec![0u8; 4 + 12];
    udp[0] = 1;
    assert!(is_table_complete(PacketKind::UdpV4, &udp));
    assert!(!is_table_complete(PacketKind::UdpV6, &udp));
    assert!(!is_table_complete(PacketKind::TcpV6, &[255, 255, 255, 255]));
}

#[test]
fn lists_grow_stale() {
    assert!(is_stale(None, 0));
    assert!(!is_stale(Some(10), 10 + 500_000_000));
    assert!(is_stale(Some(10), 11 + 500_000_000));
    assert!(!is_stale(Some(10), 5));
}

#[test]
fn paths_are_kept_for_a_while_and_not_too_many() {
    let mut lookup = WindowsProcessLookup::new();
    let dst = SocketAddr::new(v4(203, 0, 113, 7), 53);
    let src = SocketAddr::new(v4(192, 0, 2, 10), 53000);
    let mut row = vec![192, 0, 2, 10];
    row.extend_from_slice(&[0xcf, 0x08, 0, 0, 7, 0, 0, 0]);
    let rows = table(&[row]);
    lookup.path_found(7, "a".to_string(), 0);
    let step = lookup.sessions_refreshed(PacketKind::UdpV4, Some(&rows), src, dst, 300 * SECOND);
    assert_eq!(step, LookupStep::Found("a".to_string()));
    let step =
        lookup.sessions_refreshed(PacketKind::UdpV4, Some(&rows), src, dst, 600 * SECOND + 1);
    assert_eq!(step, LookupStep::QueryPath(7));
    assert_eq!(lookup.cache.len(), 0);

    for pid in 0..1024 {
        lookup.path_found(pid, "p".to_string(), 0);
    }
    assert_eq!(lookup.cache.len(), 1024);
    lookup.path_found(5000, "p".to_string(), 301 * SECOND);
    assert_eq!(lookup.cache.len(), 1);
    for pid in 0..1024 {
        lookup.path_found(pid, "p".to_string(), 301 * SECOND);
    }
    assert_eq!(lookup.cache.len(), 0);
}

#[test]
fn paths_are_decoded() {
    let units: Vec<u16> = "C:\\ä.exe".encode_utf16().collect();
    assert_eq!(process_path_text(&units, units.len()), "C:\\ä.exe");
    assert_eq!(process_path_text(&units, 3), "C:\\");
    assert_eq!(process_path_text(&[0xd800], 1), "\u{fffd}");
    let units = [0x41, 0xd83d, 0xde00, 0xdc00, 0xd800, 0x42];
    assert_eq!(process_path_text(&units, 6), "A\u{1f600}\u{fffd}\u{fffd}B");
}

#[test]
fn processor_time_is_sampled() {
    let mut stats = WindowsSystemStats::new(0);
    assert_eq!(stats.cpu_sampler, CpuSampler::new(0));
    assert_eq!(stats.cpu_sampler.sample(None, SECOND), None);
    assert_eq!(stats.cpu_sampler.sample(Some(1000), SECOND), None);
    assert_eq!(stats.cpu_sampler.sample(Some(2000), SECOND + 99), None);
    assert_eq!(
        stats.cpu_sampler.sample(Some(5000), 2 * SECOND),
        Some(CpuUsage { process_100ns: 4000, wall_100ns: 10_000_000 })
    );
    assert_eq!(
        stats.cpu_sampler.sample(Some(4000), 3 * SECOND),
        Some(CpuUsage { process_100ns: 0, wall_100ns: 10_000_000 })
    );
    assert_eq!(filetime_to_u64(1, 2), (1 << 32) | 2);
    assert_eq!(filetime_to_u64(u32::MAX, u32::MAX), u64::MAX);
    assert_eq!(get_process_time_100ns(1, 2, 3, 4), (4 << 32) + 6);
}

#[test]
fn log_lines_are_written() {
    assert_eq!(format_line("now", "INFO", "hello"), "[now] [ INFO] hello");
    assert_eq!(format_line("now", "ERROR", ""), "[now] [ERROR] ");
}

#[test]
fn the_log_keeps_the_newest_lines() {
    let mut logger = TuiLogger::new(false);
    for i in 0..60 {
        assert_eq!(logger.log("t", "INFO", &format!("{}", i)), None);
    }
    assert_eq!(logger.logs.len(), 50);
    assert_eq!(logger.logs[0], "[t] [ INFO] 10");
    assert_eq!(logger.logs[49], "[t] [ INFO] 59");
    assert!(!flush(Some(&logger)));
    let mut logger = TuiLogger::new(true);
    assert_eq!(logger.log("t", "WARN", "x"), Some("[t] [ WARN] x\n".to_string()));
    assert!(flush(Some(&logger)));
    assert!(!flush(None));
    let mut logger = TuiLogger::new(false);
    logger.logs = (0..52).map(|i| format!("{}", i)).collect();
    assert_eq!(logger.log("t", "INFO", "x"), None);
    assert_eq!(logger.logs.len(), 52);
    assert_eq!((logger.logs[0].as_str(), logger.logs[51].as_str()), ("1", "[t] [ INFO] x"));
}

fn float_text(bytes: u64) -> String {
    if bytes < 1024 {
        format!("{} B", bytes)
    } else if bytes < 1024 * 1024 {
        format!("{:.1} KB", bytes as f64 / 1024.0)
    } else if bytes < 1024 * 1024 * 1024 {
        format!("{:.1} MB", bytes as f64 / (1024.0 * 1024.0))
    } else {
        format!("{:.2} GB", bytes as f64 / (1024.0 * 1024.0 * 1024.0))
    }
}

#[test]
fn amounts_are_written() {
    let state = TuiState::new();
    assert_eq!(state.format_bytes(0), "0 B");
    assert_eq!(state.format_bytes(1023), "1023 B");
    assert_eq!(state.format_bytes(1024), "1.0 KB");
    assert_eq!(state.format_bytes(1280), "1.2 KB");
    assert_eq!(state.format_bytes(1792), "1.8 KB");
    assert_eq!(state.format_bytes(1048575), "1024.0 KB");
    assert_eq!(state.format_bytes(1 << 20), "1.0 MB");
    assert_eq!(state.format_bytes(1 << 30), "1.00 GB");
    assert_eq!(state.format_rate(2048), "2.0 KB/s");
}

#[test]
fn amounts_are_written_like_floating_point_numbers() {
    let state = TuiState::new();
    for bytes in 0..40_000u64 {
        assert_eq!(state.format_bytes(bytes), float_text(bytes));
    }
    let mut bytes: u64 = 1;
    for i in 0..200_000u64 {
        bytes = bytes.wrapping_mul(6364136223846793005).wrapping_add(1442695040888963407);
        let value = bytes >> (i % 64);
        assert_eq!(state.format_bytes(value), float_text(value), "{}", value);
    }
    for k in 0..64 {
        for delta in 0..3u64 {
            let value = (1u64 << k).wrapping_sub(1).wrapping_add(delta);
            assert_eq!(state.format_bytes(value), float_text(value), "{}", value);
        }
    }
    for tie in [1u64, 3, 5, 7, 9, 101] {
        for base in [0u64, 1 << 30, 1 << 53, 1 << 60, 1 << 63] {
            let value = base + tie * (1 << 27);
            for v in [value - 1, value, value + 1] {
                assert_eq!(state.format_bytes(v), float_text(v), "{}", v);
            }
        }
    }
    assert_eq!(state.format_bytes(u64::MAX), float_text(u64::MAX));
}

#[test]
fn times_are_written() {
    let state = TuiState::new();
    assert_eq!(state.format_time(0), "00:00:00");
    assert_eq!(state.format_time(3661 * SECOND + 999_999_999), "01:01:01");
    assert_eq!(state.format_time(360_000 * SECOND), "100:00:00");
}

#[test]
fn traffic_is_told_over_the_window() {
    let mut sampler = TrafficSampler::new(5 * SECOND);
    assert_eq!(sampler.sample(0, 0, 0), None);
    assert_eq!(sampler.sample(5, 5, 0), None);
    assert_eq!(
        sampler.sample(100, 50, SECOND),
        Some(TrafficDelta { sent: 100, received: 50, span: SECOND })
    );
    assert_eq!(
        sampler.sample(300, 40, 6 * SECOND),
        Some(TrafficDelta { sent: 200, received: 0, span: 5 * SECOND })
    );
    assert_eq!(sampler.sample(300, 40, 60 * SECOND), None);
    let mut state = TuiState::new();
    assert_eq!(state.get_traffic_rates(0, 0, 0), None);
    assert_eq!(
        state.get_traffic_rates(7, 9, 2),
        Some(TrafficDelta { sent: 7, received: 9, span: 2 })
    );
}

#[test]
fn keys_end_the_program() {
    let mut state = TuiState::new();
    assert!(!state.handle_key(true, Some('c'), false));
    assert!(!state.handle_key(true, Some('x'), true));
    assert!(!state.handle_key(true, None, true));
    assert!(!state.handle_key(false, Some('q'), false));
    assert!(!state.should_shutdown());
    assert!(state.handle_key(true, Some('c'), true));
    assert!(state.should_shutdown());
    let mut state = TuiState::new();
    assert!(state.handle_key(true, Some('q'), false));
    assert!(state.should_shutdown());
    let mut state = TuiState::new();
    state.request_shutdown();
    assert!(state.should_shutdown());
}

#[test]
fn the_newest_lines_are_shown_first() {
    let logs: Vec<String> = ["a", "b", "c"].iter().map(|s| s.to_string()).collect();
    assert_eq!(visible_logs(&logs, 2), vec!["c", "b"]);
    assert_eq!(visible_logs(&logs, 9), vec!["c", "b", "a"]);
    assert_eq!(visible_logs(&logs, 0).len(), 0);
}

#[test]
fn the_status_bar() {
    let status = Status {
        up: "1.0 KB",
        down: "2.0 MB",
        up_rate: "3 B/s",
        down_rate: "4 B/s",
        time: "00:00:05",
        cpu: "  1.5%",
        mem: "12.0 MB",
    };
    assert_eq!(
        status_line(3, 123456, &status),
        " TCP:     3 | UDP: 123456 | UP:   1.0 KB | DOWN:   2.0 MB | UPS:     3 B/s | DNS:     4 B/s | TIME: 00:00:05 | CPU:   1.5% | MEM:  12.0 MB "
    );
}
