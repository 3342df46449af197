use rsprobe::stream_data::{IatCaptureWindow, StreamData, Tr101290Errors, IAT_CAPTURE_WINDOW_SIZE};
use std::sync::Arc;

fn stream(pid: u16, start_time: u64, capture_time: u64, cc: u8) -> StreamData {
    StreamData::new(
        Arc::new(vec![0x47u8; 188]),
        0,
        188,
        pid,
        "video".to_string(),
        0x1B,
        1,
        start_time,
        42,
        cc,
        capture_time,
        5,
        "239.0.0.1".to_string(),
        10000,
        "probe".to_string(),
    )
}

#[test]
fn new_stream_starts_at_zero() {
    let sd = stream(0x100, 10, 20, 3);
    assert_eq!(sd.pid, 0x100);
    assert_eq!(sd.pmt_pid, 0xFFFF);
    assert_eq!(sd.stream_type, "video");
    assert_eq!(sd.last_arrival_time, 20);
    assert_eq!(sd.last_sample_time, 10);
    assert_eq!(sd.capture_time, 20);
    assert_eq!(sd.capture_iat_max, 5);
    assert_eq!(sd.count, 0);
    assert_eq!(sd.packet.len(), 188);
    assert!(sd.log_message.is_empty());
}

#[test]
fn clone_is_equal() {
    let sd = stream(0x100, 10, 20, 3);
    let c = sd.clone();
    assert_eq!(c.pid, sd.pid);
    assert_eq!(c.stream_type, sd.stream_type);
    assert_eq!(c.source_ip, sd.source_ip);
    assert!(Arc::ptr_eq(&c.packet, &sd.packet));
}

#[test]
fn continuity_in_order_is_no_error() {
    let mut sd = stream(0x100, 0, 0, 3);
    sd.set_continuity_counter(4);
    assert_eq!(sd.error_count, 0);
    assert_eq!(sd.current_error_count, 0);
    sd.set_continuity_counter(4);
    assert_eq!(sd.error_count, 0);
    let mut wrap = stream(0x100, 0, 0, 15);
    wrap.set_continuity_counter(0);
    assert_eq!(wrap.error_count, 0);
}

#[test]
fn continuity_jump_counts_one_error_and_its_size() {
    let mut sd = stream(0x100, 0, 0, 3);
    sd.set_continuity_counter(7);
    assert_eq!(sd.error_count, 1);
    assert_eq!(sd.current_error_count, 4);
    assert_eq!(sd.continuity_counter, 7);
    sd.set_continuity_counter(2);
    assert_eq!(sd.error_count, 2);
    assert_eq!(sd.current_error_count, 11);
    sd.set_continuity_counter(3);
    assert_eq!(sd.error_count, 2);
    assert_eq!(sd.current_error_count, 0);
}

#[test]
fn stats_in_first_second_only_add_bits() {
    let mut sd = stream(0x100, 0, 500, 0);
    sd.update_stats(188);
    assert_eq!(sd.total_bits, 1504);
    assert_eq!(sd.total_bits_sample, 1504);
    assert_eq!(sd.count, 0);
    assert_eq!(sd.bitrate, 0);
}

#[test]
fn stats_sample_bitrate_after_one_second() {
    let mut sd = stream(0x100, 0, 2000, 0);
    sd.update_stats(188);
    assert_eq!(sd.total_bits, 1504);
    assert_eq!(sd.bitrate, 752);
    assert_eq!(sd.bitrate_avg, 752);
    assert_eq!(sd.bitrate_max, 752);
    assert_eq!(sd.bitrate_min, 752);
    assert_eq!(sd.total_bits_sample, 0);
    assert_eq!(sd.last_sample_time, 2000);
    assert_eq!(sd.count, 1);
    // second packet in the same second: no new sample
    sd.update_capture_time(2500);
    sd.update_stats(188);
    assert_eq!(sd.bitrate, 752);
    assert_eq!(sd.total_bits_sample, 1504);
    assert_eq!(sd.count, 2);
    // third packet: inter-arrival statistics start (count > 1)
    sd.update_capture_time(2600);
    sd.update_stats(188);
    assert_eq!(sd.iat, 100);
    assert_eq!(sd.iat_min, 0);
    assert_eq!(sd.iat_max, 0);
    assert_eq!(sd.iat_avg, 100 / 3);
    assert_eq!(sd.count, 3);
    // a new sample one second later: the average uses the whole run
    sd.update_capture_time(3600);
    sd.update_stats(188);
    assert_eq!(sd.total_bits, 4 * 1504);
    assert_eq!(sd.bitrate, (3 * 1504 * 1000 / 1600) as u32);
    assert_eq!(sd.bitrate_avg, (4 * 1504 * 1000 / 3600) as u32);
    assert_eq!(sd.bitrate_max, 2820);
    assert_eq!(sd.bitrate_min, 752);
}

#[test]
fn setters() {
    let mut sd = stream(0x100, 0, 0, 0);
    sd.update_stream_type("audio".to_string());
    sd.update_stream_type_number(0x0F);
    sd.update_source_ip("10.0.0.1".to_string());
    sd.update_source_port(0xFFFF_FFFF);
    sd.update_program_number(9);
    sd.increment_error_count(3);
    sd.increment_error_count(2);
    sd.increment_count(7);
    sd.set_rtp_fields(1, 96, "raw".to_string(), 2, 3, 4, 1, 0, 5);
    assert_eq!(sd.stream_type, "audio");
    assert_eq!(sd.stream_type_number, 0x0F);
    assert_eq!(sd.source_ip, "10.0.0.1");
    assert_eq!(sd.source_port, -1);
    assert_eq!(sd.program_number, 9);
    assert_eq!(sd.error_count, 5);
    assert_eq!(sd.current_error_count, 2);
    assert_eq!(sd.count, 7);
    assert_eq!(sd.rtp_payload_type, 96);
    assert_eq!(sd.rtp_payload_type_name, "raw");
    assert_eq!(sd.rtp_extended_sequence_number, 5);
}

#[test]
fn counters_wrap() {
    let mut sd = stream(0x100, 0, 0, 0);
    sd.increment_error_count(u32::MAX);
    sd.increment_error_count(2);
    assert_eq!(sd.error_count, 1);
}

#[test]
fn iat_window_keeps_peak_of_last_samples() {
    let mut window = IatCaptureWindow::new();
    let mut sd = stream(0x100, 0, 0, 0);
    sd.update_capture_iat(1000, &mut window);
    assert_eq!(sd.capture_iat, 1000);
    assert_eq!(sd.capture_iat_max, 1000);
    for _ in 0..IAT_CAPTURE_WINDOW_SIZE - 1 {
        sd.update_capture_iat(3, &mut window);
    }
    assert_eq!(window.len(), IAT_CAPTURE_WINDOW_SIZE);
    assert_eq!(sd.capture_iat_max, 1000);
    sd.update_capture_iat(7, &mut window);
    assert_eq!(window.len(), IAT_CAPTURE_WINDOW_SIZE);
    assert_eq!(sd.capture_iat_max, 7);
    assert_eq!(window.peak(), 7);
    assert_eq!(window.max_sample(), 7);
    assert_eq!(window.sample(IAT_CAPTURE_WINDOW_SIZE - 1), 7);
}

#[test]
fn error_counters_text() {
    let mut e = Tr101290Errors::new();
    e.continuity_counter_errors = 12;
    e.cat_errors = 4_294_967_295;
    assert_eq!(
        e.text(),
        "TS Sync Byte Errors: 0, Sync Byte Errors: 0, Continuity Counter Errors: 12, \
         PAT Errors: 0, PMT Errors: 0, PID Map Errors: 0, \
         Transport Error Indicator Errors: 0, CRC Errors: 0, PCR Repetition Errors: 0, \
         PCR Discontinuity Indicator Errors: 0, PCR Accuracy Errors: 0, PTS Errors: 0, \
         CAT Errors: 4294967295"
    );
}

#[test]
fn window_holds_last_hundred_samples_and_their_peak() {
    let mut window = IatCaptureWindow::new();
    let mut a = stream(1, 0, 0, 0);
    let mut b = stream(2, 0, 0, 0);
    // One large early value, then smaller ones on two records sharing the window.
    a.update_capture_iat(1_000, &mut window);
    assert_eq!(a.capture_iat_max, 1_000);
    for i in 0..150u64 {
        let sd = if i % 2 == 0 { &mut a } else { &mut b };
        sd.update_capture_iat(i, &mut window);
        assert_eq!(sd.capture_iat, i);
    }
    assert_eq!(window.len(), 100);
    for k in 0..100 {
        assert_eq!(window.sample(k), 50 + k as u64);
    }
    // The early peak has left the window: the peak is the largest of the last 100.
    assert_eq!(b.capture_iat_max, 149);
    assert_eq!(window.peak(), 149);
}
