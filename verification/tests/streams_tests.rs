use rsprobe::pid_map::{pid_map_contains, pid_map_get, pid_map_insert, pid_map_new};
use rsprobe::stream_data::{
    cleanup_stale_streams, determine_stream_program_number, determine_stream_type,
    determine_stream_type_number, get_pid_map, process_mpegts_packet, process_packet,
    update_pid_map, IatCaptureWindow, StreamData, Tr101290Errors,
};
use rsprobe::streams::{
    cleanup_stale_streams_at, mpegts_scan_is_safe, packet_is_processable,
    pid_map_update_is_readable, update_pid_map_at,
};
use std::sync::Arc;

fn ts(pid: u16, cc: u8) -> Vec<u8> {
    let mut p = vec![0xFFu8; 188];
    p[0] = 0x47;
    p[1] = ((pid >> 8) as u8) & 0x1F;
    p[2] = pid as u8;
    p[3] = 0x10 | (cc & 0x0F);
    p
}

fn datagram(offset: usize, pids: &[u16]) -> Vec<u8> {
    let mut d = vec![0u8; offset];
    for (i, pid) in pids.iter().enumerate() {
        d.extend_from_slice(&ts(*pid, i as u8));
    }
    d
}

fn sample_pat() -> Vec<u8> {
    let mut p = vec![0u8; 188];
    p[..4].copy_from_slice(&[0x47, 0x40, 0x00, 0x10]);
    p[5..9].copy_from_slice(&[0x00, 0x01, 0xE1, 0x00]); // program 1 -> PMT PID 0x100
    p
}

fn sample_pmt() -> Vec<u8> {
    let mut p = vec![0xFFu8; 188];
    p[..4].copy_from_slice(&[0x47, 0x41, 0x00, 0x10]);
    p[6] = 0xB0;
    p[7] = 0x0D; // section length 13
    p[8] = 0x00;
    p[9] = 0x01;
    p[15] = 0xF0;
    p[16] = 0x00;
    p[17..22].copy_from_slice(&[0x1B, 0xE1, 0x01, 0xF0, 0x00]);
    p[22..27].copy_from_slice(&[0x0F, 0xE1, 0x02, 0xF0, 0x00]);
    p
}

#[test]
fn mpegts_packets_are_split_at_sync_bytes() {
    let d = datagram(42, &[0x100, 0x101, 0x1FFF]);
    assert!(mpegts_scan_is_safe(42, &d, 188));
    let map = pid_map_new();
    let mut window = IatCaptureWindow::new();
    let streams = process_mpegts_packet(
        42,
        Arc::new(d),
        188,
        1000,
        5000,
        7,
        "239.1.1.1".to_string(),
        1234,
        "p1".to_string(),
        &map,
        &mut window,
    );
    assert_eq!(streams.len(), 3);
    let starts: Vec<usize> = streams.iter().map(|s| s.packet_start).collect();
    assert_eq!(starts, vec![42, 230, 418]);
    let pids: Vec<u16> = streams.iter().map(|s| s.pid).collect();
    assert_eq!(pids, vec![0x100, 0x101, 0x1FFF]);
    assert_eq!(streams[1].continuity_counter, 1);
    assert_eq!(streams[0].stream_type, "unknown");
    assert_eq!(streams[0].packet_len, 188);
    assert_eq!(streams[0].total_bits, 1504);
    assert_eq!(streams[0].count, 1);
    assert_eq!(streams[0].capture_iat_max, 7);
    assert_eq!(window.len(), 3);
}

#[test]
fn mpegts_scan_skips_junk_without_sync() {
    let mut d = datagram(0, &[0x100]);
    d.extend_from_slice(&[0u8; 10]);
    assert!(mpegts_scan_is_safe(0, &d, 188));
    let map = pid_map_new();
    let mut window = IatCaptureWindow::new();
    let streams = process_mpegts_packet(
        0,
        Arc::new(d),
        188,
        0,
        0,
        0,
        String::new(),
        0,
        String::new(),
        &map,
        &mut window,
    );
    assert_eq!(streams.len(), 1);
}

#[test]
fn mpegts_resync_inside_junk_is_unsafe() {
    let mut d = vec![0u8, 0u8];
    d.extend_from_slice(&ts(0x100, 0));
    assert!(!mpegts_scan_is_safe(0, &d, 188));
    assert!(!mpegts_scan_is_safe(0, &d, 0));
}

#[test]
fn pid_map_update_records_pmt_streams() {
    let mut map = pid_map_new();
    let mut window = IatCaptureWindow::new();
    let pat = sample_pat();
    let pmt = sample_pmt();
    assert!(pid_map_update_is_readable(&pmt, &pat));
    let program = update_pid_map_at(
        &pmt,
        &pat,
        100,
        3,
        "239.1.1.1".to_string(),
        1234,
        "p1".to_string(),
        777,
        &mut map,
        &mut window,
    );
    assert_eq!(program, 1);
    assert_eq!(determine_stream_type(&map, 0x101), "H.264/14496-10 video (MPEG-4/AVC)");
    assert_eq!(determine_stream_type_number(&map, 0x101), 0x1B);
    assert_eq!(determine_stream_type_number(&map, 0x102), 0x0F);
    assert_eq!(determine_stream_program_number(&map, 0x102), 1);
    assert_eq!(determine_stream_type(&map, 0x103), "unknown");
    assert_eq!(determine_stream_type_number(&map, 0x103), 0);
    assert_eq!(determine_stream_program_number(&map, 0x103), 0);
    let entry = pid_map_get(&map, 0x101).unwrap();
    assert_eq!(entry.start_time, 777);
    assert_eq!(entry.timestamp, 777);
    assert_eq!(entry.capture_iat, 3);
    let copy = get_pid_map(&map);
    assert!(pid_map_contains(&copy, 0x102));
}

#[test]
fn pid_map_update_with_clock() {
    let mut map = pid_map_new();
    let mut window = IatCaptureWindow::new();
    let program = update_pid_map(
        &sample_pmt(),
        &sample_pat(),
        100,
        3,
        String::new(),
        0,
        String::new(),
        &mut map,
        &mut window,
    );
    assert_eq!(program, 1);
    assert!(pid_map_contains(&map, 0x101));
    assert!(pid_map_get(&map, 0x101).unwrap().start_time > 1_600_000_000_000);
}

#[test]
fn pid_map_update_without_pat_programs_changes_nothing() {
    let mut map = pid_map_new();
    let mut window = IatCaptureWindow::new();
    let program = update_pid_map_at(
        &sample_pmt(),
        &[],
        100,
        3,
        String::new(),
        0,
        String::new(),
        0,
        &mut map,
        &mut window,
    );
    assert_eq!(program, 0);
    assert!(!pid_map_contains(&map, 0x101));
    assert_eq!(window.len(), 0);
}

fn packet_record(pid: u16, cc: u8, capture_time: u64) -> StreamData {
    let bytes = ts(pid, cc);
    StreamData::new(
        Arc::new(bytes),
        0,
        188,
        pid,
        "video".to_string(),
        0x1B,
        1,
        0,
        0,
        cc,
        capture_time,
        2,
        "239.1.1.1".to_string(),
        1234,
        "p1".to_string(),
    )
}

#[test]
fn process_packet_adds_then_updates_streams() {
    let mut map = pid_map_new();
    let mut window = IatCaptureWindow::new();
    let mut errors = Tr101290Errors::new();
    let mut first = packet_record(0x100, 0, 100);
    assert!(packet_is_processable(&first));
    process_packet(&mut first, &mut errors, 0xFFFF, "p1".to_string(), &mut map, &mut window);
    assert!(pid_map_contains(&map, 0x100));
    assert_eq!(errors.pid_map_errors, 1);
    let mut second = packet_record(0x100, 2, 1500);
    process_packet(&mut second, &mut errors, 0x20, "p2".to_string(), &mut map, &mut window);
    let entry = pid_map_get(&map, 0x100).unwrap();
    assert_eq!(entry.capture_time, 1500);
    assert_eq!(entry.pmt_pid, 0x20);
    assert_eq!(entry.error_count, 1);
    assert_eq!(entry.current_error_count, 2);
    assert_eq!(second.error_count, 1);
    assert_eq!(second.pmt_pid, 0x20);
    assert_eq!(second.probe_id, "p2");
    assert_eq!(second.total_bits, 2 * 1504);
    assert_eq!(window.len(), 2);
}

#[test]
fn process_packet_ignores_new_pid_after_pmt() {
    let mut map = pid_map_new();
    let mut window = IatCaptureWindow::new();
    let mut errors = Tr101290Errors::new();
    let mut p = packet_record(0x200, 0, 100);
    process_packet(&mut p, &mut errors, 0x20, "p1".to_string(), &mut map, &mut window);
    assert!(!pid_map_contains(&map, 0x200));
    assert_eq!(window.len(), 0);
}

#[test]
fn process_null_packet_is_not_checked() {
    let mut map = pid_map_new();
    let mut window = IatCaptureWindow::new();
    let mut errors = Tr101290Errors::new();
    let mut p = packet_record(0x1FFF, 0, 100);
    p.packet = Arc::new(vec![0u8; 188]);
    process_packet(&mut p, &mut errors, 0xFFFF, "p1".to_string(), &mut map, &mut window);
    assert_eq!(errors.sync_byte_errors, 0);
    assert_eq!(errors.pid_map_errors, 0);
}

#[test]
fn packet_processability() {
    let mut p = packet_record(0x100, 0, 100);
    p.packet_len = 189;
    assert!(!packet_is_processable(&p));
    p.packet_len = 7;
    assert!(!packet_is_processable(&p));
    p.pid = 0x1FFF;
    assert!(packet_is_processable(&p));
}

#[test]
fn cleanup_removes_only_stale_streams() {
    let mut map = pid_map_new();
    pid_map_insert(&mut map, 1, packet_record(1, 0, 1000));
    pid_map_insert(&mut map, 2, packet_record(2, 0, 5000));
    cleanup_stale_streams_at(&mut map, 2000, 4000);
    assert!(!pid_map_contains(&map, 1));
    assert!(pid_map_contains(&map, 2));
    cleanup_stale_streams_at(&mut map, 2000, 7000);
    assert!(pid_map_contains(&map, 2));
    cleanup_stale_streams_at(&mut map, 2000, 7001);
    assert!(!pid_map_contains(&map, 2));
}

#[test]
fn cleanup_by_clock_removes_old_streams() {
    let mut map = pid_map_new();
    pid_map_insert(&mut map, 1, packet_record(1, 0, 1000));
    assert!(cleanup_stale_streams(&mut map, 60_000));
    assert!(!pid_map_contains(&map, 1));
}

#[test]
fn cleanup_twice_is_cleanup_once() {
    let mut map = pid_map_new();
    pid_map_insert(&mut map, 1, packet_record(1, 0, 1000));
    pid_map_insert(&mut map, 2, packet_record(2, 0, 5000));
    pid_map_insert(&mut map, 3, packet_record(3, 0, 6000));
    cleanup_stale_streams_at(&mut map, 1500, 6000);
    let first: Vec<bool> = (1..=3).map(|pid| pid_map_contains(&map, pid)).collect();
    cleanup_stale_streams_at(&mut map, 1500, 6000);
    let second: Vec<bool> = (1..=3).map(|pid| pid_map_contains(&map, pid)).collect();
    assert_eq!(first, vec![false, true, true]);
    assert_eq!(first, second);
}
