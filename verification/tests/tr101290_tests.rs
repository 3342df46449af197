use crc::{Crc, CRC_32_ISO_HDLC};
use rsprobe::pid_map::{pid_map_insert, pid_map_new};
use rsprobe::stream_data::{StreamData, Tr101290Errors};
use rsprobe::tr101290::{
    p1_is_readable, p2_is_readable, tr101290_p1_check, tr101290_p2_check,
    tr101290_p2_check_with_crc,
};
use std::sync::Arc;

fn stream(pid: u16) -> StreamData {
    StreamData::new(
        Arc::new(Vec::new()),
        0,
        0,
        pid,
        String::new(),
        0,
        1,
        0,
        0,
        0,
        0,
        0,
        String::new(),
        0,
        String::new(),
    )
}

#[test]
fn new_errors_are_zero() {
    let e = Tr101290Errors::new();
    assert_eq!(e.ts_sync_byte_errors, 0);
    assert_eq!(e.pid_map_errors, 0);
    assert_eq!(e.cat_errors, 0);
}

#[test]
fn p1_counts_sync_byte_errors() {
    let map = pid_map_new();
    let mut e = Tr101290Errors::new();
    let mut sd = stream(0x100);
    let p = vec![0x46u8; 188];
    tr101290_p1_check(&p, &mut e, 0x1FFF, &mut sd, &map);
    assert_eq!(e.ts_sync_byte_errors, 1);
    assert_eq!(e.sync_byte_errors, 1);
    let mut q = p.clone();
    q[0] = 0x47;
    tr101290_p1_check(&q, &mut e, 0x1FFF, &mut sd, &map);
    assert_eq!(e.ts_sync_byte_errors, 1);
}

#[test]
fn p1_counts_unknown_pid_and_copies_continuity_errors() {
    let mut map = pid_map_new();
    let mut e = Tr101290Errors::new();
    let mut sd = stream(0x100);
    sd.error_count = 4;
    let p = vec![0x47u8; 188];
    tr101290_p1_check(&p, &mut e, 0x100, &mut sd, &map);
    assert_eq!(e.pid_map_errors, 1);
    assert_eq!(e.continuity_counter_errors, 4);
    pid_map_insert(&mut map, 0x100, stream(0x100));
    tr101290_p1_check(&p, &mut e, 0x100, &mut sd, &map);
    assert_eq!(e.pid_map_errors, 1);
    assert_eq!(sd.error_count, 4);
}

#[test]
fn p1_pat_errors() {
    let map = pid_map_new();
    let mut sd = stream(0);
    // section syntax set, section length 13, table 0, sections 0, one program
    let mut p = vec![0u8; 188];
    p[0] = 0x47;
    p[1] = 0x80;
    p[2] = 13;
    p[8] = 0x00;
    p[9] = 0x01;
    let mut e = Tr101290Errors::new();
    tr101290_p1_check(&p, &mut e, 0, &mut sd, &map);
    assert_eq!(e.pat_errors, 0);
    // no program listed
    p[9] = 0x00;
    tr101290_p1_check(&p, &mut e, 0, &mut sd, &map);
    assert_eq!(e.pat_errors, 1);
    // wrong table id
    p[9] = 0x01;
    p[5] = 0x02;
    tr101290_p1_check(&p, &mut e, 0, &mut sd, &map);
    assert_eq!(e.pat_errors, 2);
    // short section of table 0 is not counted
    let mut q = vec![0u8; 188];
    q[0] = 0x47;
    tr101290_p1_check(&q, &mut e, 0, &mut sd, &map);
    assert_eq!(e.pat_errors, 2);
    // short section of another table is
    q[5] = 0x01;
    tr101290_p1_check(&q, &mut e, 0, &mut sd, &map);
    assert_eq!(e.pat_errors, 3);
}

#[test]
fn p1_pmt_errors() {
    let map = pid_map_new();
    let mut sd = stream(0x100);
    sd.pmt_pid = 0x20;
    sd.program_number = 1;
    let mut p = vec![0u8; 188];
    p[0] = 0x47;
    p[1] = 0x80;
    p[2] = 20; // section length
    p[3] = 0x02; // table id
    p[4] = 0x00;
    p[5] = 0x01; // program 1
    p[6] = 0x01; // current
    p[10] = 0x00;
    p[11] = 0x04; // program info length 4
    let mut e = Tr101290Errors::new();
    tr101290_p1_check(&p, &mut e, 0x20, &mut sd, &map);
    assert_eq!(e.pmt_errors, 0);
    p[5] = 0x02; // another program
    tr101290_p1_check(&p, &mut e, 0x20, &mut sd, &map);
    assert_eq!(e.pmt_errors, 1);
    // not the PMT PID: no PMT check
    tr101290_p1_check(&p, &mut e, 0x21, &mut sd, &map);
    assert_eq!(e.pmt_errors, 1);
}

#[test]
fn p1_readability() {
    let sd = stream(0x100);
    assert!(!p1_is_readable(&[], 0x100, &sd));
    assert!(p1_is_readable(&[0x47], 0x100, &sd));
    assert!(!p1_is_readable(&[0x47, 0x00], 0, &sd));
}

fn crc_packet() -> Vec<u8> {
    let mut p = vec![0u8; 188];
    p[0] = 0x47;
    p[1] = 0x80; // transport error indicator, also gates the CRC check
    p[3] = 0x30; // adaptation field and payload
    p[4] = 4; // payload starts at 9; checksum in bytes 5..9
    for (i, b) in p.iter_mut().enumerate().skip(9) {
        *b = (i % 7) as u8;
    }
    let crc = Crc::<u32>::new(&CRC_32_ISO_HDLC).checksum(&p[9..184]);
    p[5..9].copy_from_slice(&crc.to_be_bytes());
    p
}

#[test]
fn p2_crc_matches() {
    let p = crc_packet();
    assert!(p2_is_readable(&p));
    let mut e = Tr101290Errors::new();
    let mut sd = stream(0x100);
    tr101290_p2_check(&p, &mut e, &mut sd);
    assert_eq!(e.crc_errors, 0);
    assert_eq!(e.transport_error_indicator_errors, 1);
}

#[test]
fn p2_crc_mismatch_is_counted() {
    let mut p = crc_packet();
    p[100] ^= 0xFF;
    let mut e = Tr101290Errors::new();
    let mut sd = stream(0x100);
    tr101290_p2_check(&p, &mut e, &mut sd);
    assert_eq!(e.crc_errors, 1);
}

#[test]
fn p2_with_given_crc() {
    let p = crc_packet();
    let stored = u32::from_be_bytes([p[5], p[6], p[7], p[8]]);
    let mut e = Tr101290Errors::new();
    let mut sd = stream(0x100);
    tr101290_p2_check_with_crc(&p, &mut e, &mut sd, stored);
    assert_eq!(e.crc_errors, 0);
    tr101290_p2_check_with_crc(&p, &mut e, &mut sd, stored ^ 1);
    assert_eq!(e.crc_errors, 1);
}

fn pcr_packet(pcr_byte9: u8) -> Vec<u8> {
    let mut p = vec![0u8; 188];
    p[0] = 0x47;
    p[3] = 0x20; // adaptation field only
    p[4] = 7;
    p[5] = 0x10; // PCR flag
    p[9] = pcr_byte9;
    p
}

#[test]
fn p2_pcr_accuracy() {
    let mut e = Tr101290Errors::new();
    let mut sd = stream(0x100);
    // base = byte9 << 16; pcr = base * 300
    tr101290_p2_check(&pcr_packet(1), &mut e, &mut sd);
    assert_eq!(sd.pcr, 65536 * 300);
    assert_eq!(e.pcr_accuracy_errors, 1);
    tr101290_p2_check(&pcr_packet(1), &mut e, &mut sd);
    assert_eq!(e.pcr_accuracy_errors, 1);
    tr101290_p2_check(&pcr_packet(2), &mut e, &mut sd);
    assert_eq!(e.pcr_accuracy_errors, 2);
    assert_eq!(e.pcr_repetition_errors, 0);
}

#[test]
fn p2_pts_errors() {
    let mut e = Tr101290Errors::new();
    let mut sd = stream(0x100);
    let mut p = vec![0u8; 188];
    p[0] = 0x47;
    p[3] = 0x10;
    p[7] = 0x80; // PTS flag
    p[12] = 0x01; // pts = 256
    tr101290_p2_check(&p, &mut e, &mut sd);
    assert_eq!(sd.pts, 256);
    assert_eq!(e.pts_errors, 0);
    p[12] = 0x00;
    p[14] = 0x01; // pts = 1 < 256
    tr101290_p2_check(&p, &mut e, &mut sd);
    assert_eq!(sd.pts, 1);
    assert_eq!(e.pts_errors, 1);
    p[10] = 0x01; // pts jumps by 2^24
    tr101290_p2_check(&p, &mut e, &mut sd);
    assert_eq!(e.pts_errors, 2);
}

#[test]
fn p2_cat_errors() {
    let mut e = Tr101290Errors::new();
    let mut sd = stream(1);
    let mut p = vec![0u8; 188];
    p[0] = 0x47;
    p[3] = 0x01;
    tr101290_p2_check(&p, &mut e, &mut sd);
    assert_eq!(e.cat_errors, 1);
    p[1] = 0x80;
    p[2] = 9;
    tr101290_p2_check(&p, &mut e, &mut sd);
    assert_eq!(e.cat_errors, 1);
}

#[test]
fn p2_readability() {
    assert!(!p2_is_readable(&[0x47, 0, 0, 0x10, 0, 0, 0]));
    assert!(p2_is_readable(&[0x47, 0, 0, 0x10, 0, 0, 0, 0]));
    assert!(!p2_is_readable(&[0x47, 0, 0, 0x10, 0, 0, 0, 0x80]));
}
