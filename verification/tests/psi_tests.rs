use rsprobe::psi::{
    extract_pid, extract_timestamp, identify_video_pid, parse_and_store_pat, parse_descriptors,
    parse_pat, parse_pmt, pat_is_readable, pmt_is_readable, stream_type_name,
    timestamp_is_readable,
};
use rsprobe::stream_data::{Codec, PatEntry};

fn ts_packet(header: [u8; 4]) -> Vec<u8> {
    let mut p = vec![0u8; 188];
    p[..4].copy_from_slice(&header);
    p
}

#[test]
fn extract_pid_of_short_packet_is_zero() {
    let p = vec![0x47u8, 0x01, 0x00, 0x10];
    assert_eq!(extract_pid(&p), 0);
}

#[test]
fn extract_pid_with_transport_error_is_ffff() {
    let p = ts_packet([0x47, 0x81, 0x00, 0x10]);
    assert_eq!(extract_pid(&p), 0xFFFF);
}

#[test]
fn extract_pid_reads_13_bits() {
    let p = ts_packet([0x47, 0x41, 0x23, 0x10]);
    assert_eq!(extract_pid(&p), 0x0123);
    let q = ts_packet([0x47, 0x7F, 0xFF, 0x10]);
    assert_eq!(extract_pid(&q), 0x1FFF);
}

#[test]
fn extract_timestamp_reads_pcr() {
    let mut p = ts_packet([0x47, 0x01, 0x00, 0x20]);
    p[4] = 7;
    p[5] = 0x10;
    // base = 1 (bit 7 of byte 10), extension = 5
    p[6] = 0;
    p[7] = 0;
    p[8] = 0;
    p[9] = 0;
    p[10] = 0x80;
    p[11] = 0x05;
    assert!(timestamp_is_readable(&p));
    assert_eq!(extract_timestamp(&p), 300 + 5);
    p[9] = 0x01; // base gains 2
    assert_eq!(extract_timestamp(&p), 3 * 300 + 5);
}

#[test]
fn extract_timestamp_without_pcr_is_zero() {
    let p = ts_packet([0x47, 0x01, 0x00, 0x10]);
    assert_eq!(extract_timestamp(&p), 0);
    let mut q = ts_packet([0x47, 0x01, 0x00, 0x30]);
    q[4] = 0;
    q[5] = 0x10;
    assert_eq!(extract_timestamp(&q), 0);
}

#[test]
fn timestamp_readability_of_short_chunks() {
    assert!(!timestamp_is_readable(&[0x47]));
    assert!(timestamp_is_readable(&[0x47, 0, 0, 0x10]));
    assert!(!timestamp_is_readable(&[0x47, 0, 0, 0x30]));
    assert!(!timestamp_is_readable(&[0x47, 0, 0, 0x30, 7, 0x10, 0, 0]));
}

fn sample_pat() -> Vec<u8> {
    let mut p = ts_packet([0x47, 0x40, 0x00, 0x10]);
    p[4] = 0; // pointer field
    p[5..9].copy_from_slice(&[0x00, 0x01, 0xE1, 0x00]); // program 1 -> PID 0x100
    p[9..13].copy_from_slice(&[0x13, 0x88, 0x00, 0x20]); // program 5000: skipped
    p[13..17].copy_from_slice(&[0x00, 0x02, 0x1F, 0xFF]); // program 2 -> PID 0x1FFF
    p
}

#[test]
fn parse_pat_keeps_valid_programs() {
    let entries = parse_pat(&sample_pat());
    assert_eq!(
        entries,
        vec![
            PatEntry { program_number: 1, pmt_pid: 0x100 },
            PatEntry { program_number: 2, pmt_pid: 0x1FFF }
        ]
    );
}

#[test]
fn parse_pat_needs_full_packet_and_payload_start() {
    let p = sample_pat();
    assert!(parse_pat(&p[..100]).is_empty());
    let mut q = p.clone();
    q[1] = 0x00;
    assert!(parse_pat(&q).is_empty());
}

#[test]
fn parse_pat_skips_adaptation_field_and_pointer() {
    let mut p = ts_packet([0x47, 0x40, 0x00, 0x30]);
    p[4] = 3; // adaptation field length
    p[8] = 1; // pointer field
    p[10..14].copy_from_slice(&[0x00, 0x07, 0x01, 0x01]);
    let entries = parse_pat(&p);
    assert_eq!(entries, vec![PatEntry { program_number: 7, pmt_pid: 0x101 }]);
}

#[test]
fn pat_readability() {
    assert!(pat_is_readable(&sample_pat()));
    let mut p = ts_packet([0x47, 0x40, 0x00, 0x30]);
    p[4] = 200;
    assert!(!pat_is_readable(&p));
}

#[test]
fn parse_and_store_pat_keeps_last_program() {
    let p = sample_pat();
    let info = parse_and_store_pat(&p);
    assert_eq!(info.pid, 0x1FFF);
    assert_eq!(info.program_number, 2);
    assert_eq!(info.packet, p);
}

#[test]
fn parse_and_store_pat_without_programs() {
    let p = ts_packet([0x47, 0x40, 0x00, 0x10]);
    let info = parse_and_store_pat(&p);
    assert_eq!(info.pid, 0xFFFF);
    assert_eq!(info.program_number, 0);
}

fn sample_pmt() -> Vec<u8> {
    let mut p = vec![0xFFu8; 188];
    p[..4].copy_from_slice(&[0x47, 0x41, 0x00, 0x10]);
    p[6] = 0xB0;
    p[7] = 0x17; // section length 23
    p[8] = 0x00;
    p[9] = 0x01; // program number 1
    p[15] = 0xF0;
    p[16] = 0x03; // program info length 3
    p[17..20].copy_from_slice(&[0x05, 0x01, 0xAB]);
    p[20..25].copy_from_slice(&[0x1B, 0xE1, 0x00, 0xF0, 0x00]);
    p[25..30].copy_from_slice(&[0x0F, 0xE1, 0x01, 0xF0, 0x02]);
    p[30..32].copy_from_slice(&[0x0A, 0x00]);
    p[32..37].copy_from_slice(&[0x02, 0xE1, 0x02, 0xF0, 0x00]);
    p
}

#[test]
fn parse_pmt_reads_streams_and_descriptors() {
    let p = sample_pmt();
    assert!(pmt_is_readable(&p));
    let pmt = parse_pmt(&p);
    assert_eq!(pmt.descriptors.len(), 1);
    assert_eq!(pmt.descriptors[0].tag, 0x05);
    assert_eq!(pmt.descriptors[0].data, vec![0xAB]);
    let streams: Vec<(u16, u8, u16, usize)> = pmt
        .entries
        .iter()
        .map(|e| (e.stream_pid, e.stream_type, e.program_number, e.descriptors.len()))
        .collect();
    assert_eq!(
        streams,
        vec![(0x100, 0x1B, 1, 0), (0x101, 0x0F, 1, 1), (0x102, 0x02, 1, 0)]
    );
    assert_eq!(pmt.entries[1].descriptors[0].tag, 0x0A);
    assert!(pmt.entries[1].descriptors[0].data.is_empty());
}

#[test]
fn parse_pmt_of_tiny_section_is_empty() {
    let mut p = vec![0u8; 10];
    p[3] = 0x30;
    p[4] = 7; // adaptation field runs past the end
    assert!(pmt_is_readable(&p));
    let pmt = parse_pmt(&p);
    assert!(pmt.entries.is_empty());
    assert!(pmt.descriptors.is_empty());
}

#[test]
fn pmt_readability() {
    assert!(!pmt_is_readable(&[0x47, 0, 0]));
    assert!(!pmt_is_readable(&vec![0u8; 10]));
}

#[test]
fn parse_descriptors_stops_at_truncated_descriptor() {
    let data = [0x01u8, 0x02, 0xAA, 0xBB, 0x03, 0x05, 0x00];
    let ds = parse_descriptors(&data, 0, 7);
    assert_eq!(ds.len(), 1);
    assert_eq!(ds[0].tag, 0x01);
    assert_eq!(ds[0].data, vec![0xAA, 0xBB]);
    let none = parse_descriptors(&data, 0, 0);
    assert!(none.is_empty());
}

#[test]
fn identify_video_pid_finds_first_video_stream() {
    let p = sample_pmt();
    assert_eq!(identify_video_pid(&p), Some((0x100, Codec::H264)));
    let mut q = p.clone();
    q[20] = 0x0F; // first stream becomes audio: the MPEG-2 video stream is next
    assert_eq!(identify_video_pid(&q), Some((0x102, Codec::MPEG2)));
    q[32] = 0x81;
    assert_eq!(identify_video_pid(&q), None);
}

#[test]
fn stream_type_names() {
    assert_eq!(stream_type_name(0x1B), "H.264/14496-10 video (MPEG-4/AVC)");
    assert_eq!(stream_type_name(0x24), "H.265 video (MPEG-H/HEVC)");
    assert_eq!(stream_type_name(0x30), "ISO/IEC 13818-1 reserved");
    assert_eq!(stream_type_name(0xC0), "User Private");
    assert_eq!(stream_type_name(0x86), "SCTE 35 Splice Information Table");
}

#[test]
fn codec_names() {
    assert_eq!(Codec::NONE.name(), "NONE");
    assert_eq!(Codec::MPEG2.name(), "MPEG2");
    assert_eq!(Codec::H264.name(), "H264");
    assert_eq!(Codec::H265.name(), "H265");
}
