use rsprobe::pid_map::{pid_map_contains, pid_map_get};
use rsprobe::probe::{
    batch_due, capture_interarrival, capture_settings, first_ipv4, handle_stream_data,
    packet_limit_reached, select_device,
    pcap_read_size, release_packet, step_is_readable, CaptureSettings, ProbeState, VideoTracker,
};
use rsprobe::stream_data::{Codec, StreamData};
use std::sync::Arc;

fn ts(pid: u16, cc: u8) -> Vec<u8> {
    let mut p = vec![0xFFu8; 188];
    p[0] = 0x47;
    p[1] = ((pid >> 8) as u8) & 0x1F;
    p[2] = pid as u8;
    p[3] = 0x10 | (cc & 0x0F);
    p
}

fn sample_pat() -> Vec<u8> {
    let mut p = vec![0u8; 188];
    p[..4].copy_from_slice(&[0x47, 0x40, 0x00, 0x10]);
    p[5..9].copy_from_slice(&[0x00, 0x01, 0xE1, 0x00]); // program 1 -> PMT PID 0x100
    p
}

fn sample_pmt() -> Vec<u8> {
    let mut p = vec![0xFFu8; 188];
    p[..4].copy_from_slice(&[0x47, 0x41, 0x00, 0x10]);
    p[6] = 0xB0;
    p[7] = 0x0D; // section length 13
    p[8] = 0x00;
    p[9] = 0x01;
    p[15] = 0xF0;
    p[16] = 0x00;
    p[17..22].copy_from_slice(&[0x1B, 0xE1, 0x01, 0xF0, 0x00]); // H.264 on 0x101
    p[22..27].copy_from_slice(&[0x0F, 0xE1, 0x02, 0xF0, 0x00]); // AAC on 0x102
    p
}

fn record(bytes: Vec<u8>, pid: u16, stream_type_number: u8, cc: u8) -> StreamData {
    StreamData::new(
        Arc::new(bytes),
        0,
        188,
        pid,
        "unknown".to_string(),
        stream_type_number,
        0,
        0,
        0,
        cc,
        1_000,
        2,
        "239.1.1.1".to_string(),
        1234,
        "probe".to_string(),
    )
}

fn given() -> CaptureSettings {
    CaptureSettings {
        immediate_mode: false,
        buffer_size: 1_358_000,
        pcap_channel_size: 100_000,
        kafka_channel_size: 100_000,
        packet_size: 188,
        pcap_batch_size: 7,
    }
}

#[test]
fn smpte2110_overrides_capture_settings() {
    let s = capture_settings(true, given());
    assert!(s.immediate_mode);
    assert_eq!(s.buffer_size, 10_000_000_000);
    assert_eq!(s.pcap_channel_size, 1_000_000);
    assert_eq!(s.kafka_channel_size, 1_000_000);
    assert_eq!(s.packet_size, 1_220);
    assert_eq!(s.pcap_batch_size, 3);
    assert_eq!(capture_settings(false, given()), given());
}

#[test]
fn read_size_is_batch_plus_offset() {
    assert_eq!(pcap_read_size(188, 7, 42), 1358);
    assert_eq!(pcap_read_size(1220, 3, 42), 3702);
    assert_eq!(pcap_read_size(1 << 31, 1, 0), i32::MIN);
}

#[test]
fn tracker_follows_announced_video() {
    let mut t = VideoTracker::new();
    assert_eq!(t.video_pid, Some(0xFFFF));
    assert_eq!(t.video_codec, Some(Codec::NONE));
    assert_eq!(t.video_stream_type, 0);
    assert!(!t.on_pmt(None, 2));
    assert_eq!(t, VideoTracker::new());
    // Known stream type: the new PID is followed.
    assert!(t.on_pmt(Some((0x101, Codec::H264)), 2));
    assert_eq!(t.video_pid, Some(0x101));
    assert_eq!(t.video_codec, Some(Codec::H264));
    assert_eq!(t.video_stream_type, 2);
    // Same stream again: nothing changes.
    assert!(!t.on_pmt(Some((0x101, Codec::H264)), 2));
    // Unknown stream type: only the codec is taken.
    assert!(t.on_pmt(Some((0x200, Codec::H265)), 0));
    assert_eq!(t.video_pid, Some(0x101));
    assert_eq!(t.video_codec, Some(Codec::H265));
}

#[test]
fn tracker_takes_stream_type_of_video_packets() {
    let mut t = VideoTracker::new();
    // PID 0xFFFF is no real PID.
    assert!(!t.on_stream_packet(0xFFFF, 0x1B));
    assert!(t.on_pmt(Some((0x101, Codec::H264)), 2));
    assert!(!t.on_stream_packet(0x102, 0x0F));
    assert!(t.on_stream_packet(0x101, 0x1B));
    assert_eq!(t.video_stream_type, 0x1B);
    assert!(!t.on_stream_packet(0x101, 0x1B));
}

#[test]
fn pat_then_pmt_then_video() {
    let mut state = ProbeState::new();
    assert_eq!(state.pmt_info.pid, 0xFFFF);

    let mut pat = record(sample_pat(), 0, 0, 0);
    assert!(step_is_readable(&state, &pat, true));
    let r = handle_stream_data(
        &mut state,
        &mut pat,
        true,
        &"239.1.1.1".to_string(),
        1234,
        &"probe".to_string(),
    );
    assert!(r.pat_seen);
    assert!(!r.video_changed);
    assert_eq!(state.pmt_info.pid, 0x100);
    assert_eq!(state.pmt_info.program_number, 1);
    assert_eq!(state.pmt_info.packet, sample_pat());

    let mut pmt = record(sample_pmt(), 0x100, 2, 0);
    assert!(step_is_readable(&state, &pmt, true));
    let r = handle_stream_data(
        &mut state,
        &mut pmt,
        true,
        &"239.1.1.1".to_string(),
        1234,
        &"probe".to_string(),
    );
    assert!(!r.pat_seen);
    assert!(r.video_changed);
    assert_eq!(state.video.video_pid, Some(0x101));
    assert_eq!(state.video.video_codec, Some(Codec::H264));
    assert!(pid_map_contains(&state.pid_map, 0x101));
    assert!(pid_map_contains(&state.pid_map, 0x102));
    assert_eq!(pid_map_get(&state.pid_map, 0x101).unwrap().stream_type_number, 0x1B);
    assert_eq!(pid_map_get(&state.pid_map, 0x102).unwrap().program_number, 1);

    let mut video = record(ts(0x101, 0), 0x101, 0x1B, 0);
    assert!(step_is_readable(&state, &video, true));
    let r = handle_stream_data(
        &mut state,
        &mut video,
        true,
        &"239.1.1.1".to_string(),
        1234,
        &"probe".to_string(),
    );
    assert!(!r.pat_seen);
    assert!(!r.video_changed);
    assert_eq!(state.video.video_stream_type, 0x1B);
    assert_eq!(video.pmt_pid, 0x100);
}

#[test]
fn records_outside_transport_stream_skip_psi() {
    let mut state = ProbeState::new();
    let mut pat = record(sample_pat(), 0, 0, 0);
    let r = handle_stream_data(&mut state, &mut pat, false, &String::new(), 0, &String::new());
    assert!(!r.pat_seen);
    assert_eq!(state.pmt_info.pid, 0xFFFF);
    // Without a PMT, the packet's PID is added to the map.
    assert!(pid_map_contains(&state.pid_map, 0));
}

#[test]
fn unreadable_records_are_detected() {
    let state = ProbeState::new();
    let short = record(vec![0x47, 0x40, 0x00], 0, 0, 0);
    assert!(!step_is_readable(&state, &short, true));
}

#[test]
fn interarrival_of_captured_packets() {
    assert_eq!(capture_interarrival(0, 5_000), 0);
    assert_eq!(capture_interarrival(5_000, 5_040), 40);
    assert_eq!(capture_interarrival(5_040, 5_000), u64::MAX - 39);
}

#[test]
fn packet_limit_and_batches() {
    assert!(!packet_limit_reached(0, 1_000_000));
    assert!(!packet_limit_reached(10, 9));
    assert!(packet_limit_reached(10, 10));
    assert!(packet_limit_reached(10, 11));
    // With a limit of 3, exactly 3 packets are taken.
    let mut taken = 0u64;
    for _ in 0..10 {
        if packet_limit_reached(3, taken) {
            break;
        }
        taken += 1;
    }
    assert_eq!(taken, 3);
    assert!(batch_due(100, 100, false));
    assert!(!batch_due(99, 100, false));
    assert!(batch_due(1, 100, true));
}

#[test]
fn released_packet_refers_to_nothing() {
    let mut sd = record(ts(0x101, 3), 0x101, 0x1B, 3);
    release_packet(&mut sd);
    assert_eq!(sd.packet_len, 0);
    assert_eq!(sd.packet_start, 0);
    assert!(sd.packet.is_empty());
    assert_eq!(sd.pid, 0x101);
    assert_eq!(sd.continuity_counter, 3);
    let mut empty = record(ts(0x101, 3), 0x101, 0x1B, 3);
    empty.packet_len = 0;
    empty.packet_start = 5;
    release_packet(&mut empty);
    assert_eq!(empty.packet_start, 5);
    assert_eq!(empty.packet.len(), 188);
}

#[test]
fn device_selection() {
    let names = vec!["lo".to_string(), "eth0".to_string(), "eth1".to_string()];
    assert_eq!(select_device(&names, &"eth1".to_string()), Some(2));
    assert_eq!(select_device(&names, &String::new()), Some(0));
    assert_eq!(select_device(&names, &"wlan0".to_string()), None);
    assert_eq!(select_device(&[], &String::new()), None);
}

#[test]
fn first_ipv4_address() {
    assert_eq!(first_ipv4(&[None, Some([10, 0, 0, 1]), Some([10, 0, 0, 2])]), Some([10, 0, 0, 1]));
    assert_eq!(first_ipv4(&[None, None]), None);
    assert_eq!(first_ipv4(&[]), None);
}
