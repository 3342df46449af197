use vstd::prelude::*;
use vstd::slice::slice_subrange;
use crate::crc32::{crc32_checksum, crc32_iso_hdlc};
use crate::pid_map::{PidMap, pid_map_contains, pid_map_entries};
use crate::psi::{has_adaptation, pat_program_number_at};
use crate::stream_data::{StreamData, StreamDataView, Tr101290Errors};

verus! {

// ---------------------------------------------------------------------------
// Priority 1
// ---------------------------------------------------------------------------

/// The section_syntax_indicator bit as the checks read it (byte 1, bit 7).
pub open spec fn section_syntax_bit(p: Seq<u8>) -> bool {
    p[1] & 0x80 != 0
}

/// The 12-bit section length as the checks read it (bytes 1 and 2).
pub open spec fn section_length_of(p: Seq<u8>) -> u16 {
    (((p[1] & 0x0F) as u16) << 8) | (p[2] as u16)
}

/// True when some 4-byte PAT entry from `i` (stepping by 4, while `i`
/// stays below `p.len() - 4`) has a non-zero program number.
pub open spec fn pat_program_found_from(p: Seq<u8>, i: int) -> bool
    decreases p.len() - i,
{
    if 0 <= i && i < p.len() - 4 {
        pat_program_number_at(p, i) != 0 || pat_program_found_from(p, i + 4)
    } else {
        false
    }
}

/// True when a PAT packet counts as a PAT error: a long enough section
/// whose table id or section numbers are not zero or which holds no
/// program, or a short section that is not a table 0 section.
pub open spec fn pat_error(p: Seq<u8>) -> bool {
    if section_syntax_bit(p) && section_length_of(p) >= 13 && p.len() >= 8 {
        if p[5] == 0 && p[6] == 0 && p[7] == 0 {
            !pat_program_found_from(p, 8)
        } else {
            true
        }
    } else if p.len() >= 8 && p[5] == 0 {
        false
    } else {
        true
    }
}

/// True when the PMT check applies to a packet of `pid`: it is the
/// stream's PMT PID, and that PID is a real one.
pub open spec fn pmt_check_applies(pid: u16, sd: StreamDataView) -> bool {
    pid == sd.pmt_pid && sd.pmt_pid != 0 && sd.pmt_pid != 0x1FFF && sd.pmt_pid != 0xFFFF
}

/// True when the section of a PMT packet reaches the table fields.
pub open spec fn pmt_section_long(p: Seq<u8>) -> bool {
    section_syntax_bit(p) && p.len() >= 4 && section_length_of(p) >= 13
}

/// True when a PMT packet counts as a PMT error: not a long table 2
/// section of the stream's program, current, single-section, whose program
/// info fits in the section.
pub open spec fn pmt_error(p: Seq<u8>, sd: StreamDataView) -> bool {
    if pmt_section_long(p) && p[3] == 0x02 {
        let program_number = ((p[4] as u16) << 8) | (p[5] as u16);
        let current_next_indicator = p[6] & 0x01 != 0;
        let program_info_length = (((p[10] & 0x0F) as u16) << 8) | (p[11] as u16);
        !(program_number == sd.program_number && current_next_indicator && p[7] == 0 && p[8]
            == 0 && program_info_length + 12 <= section_length_of(p))
    } else {
        true
    }
}

/// The bytes that the priority 1 checks read are present.
pub open spec fn p1_readable(p: Seq<u8>, pid: u16, sd: StreamDataView) -> bool {
    &&& p.len() >= 1
    &&& pid == 0 ==> p.len() >= 3
    &&& pmt_check_applies(pid, sd) ==> p.len() >= 3
    &&& pmt_check_applies(pid, sd) && pmt_section_long(p) && p[3] == 0x02 ==> p.len() >= 12
}

/// Tells whether the priority 1 checks can read `packet`.
pub fn p1_is_readable(packet: &[u8], pid: u16, stream_data: &StreamData) -> (r: bool)
    ensures
        r == p1_readable(packet@, pid, stream_data@),
{
    if packet.len() < 1 {
        return false;
    }
    if pid == 0 && packet.len() < 3 {
        return false;
    }
    if pid == stream_data.pmt_pid && stream_data.pmt_pid != 0 && stream_data.pmt_pid != 0x1FFF
        && stream_data.pmt_pid != 0xFFFF {
        if packet.len() < 3 {
            return false;
        }
        let section_length = (((packet[1] & 0x0F) as u16) << 8) | packet[2] as u16;
        if (packet[1] & 0x80) != 0 && packet.len() >= 4 && section_length >= 13 && packet[3]
            == 0x02 && packet.len() < 12 {
            return false;
        }
    }
    true
}

/// `c + 1` when `cond` holds, wrapping at 32 bits.
pub open spec fn bump(c: u32, cond: bool) -> u32 {
    if cond {
        c.wrapping_add(1)
    } else {
        c
    }
}

/// The counters after the priority 1 checks of one packet of `pid`;
/// `pid_known` tells whether the PID map holds `pid`.
pub open spec fn p1_errors(
    e: Tr101290Errors,
    p: Seq<u8>,
    pid: u16,
    sd: StreamDataView,
    pid_known: bool,
) -> Tr101290Errors {
    let sync_bad = p[0] != 0x47;
    Tr101290Errors {
        ts_sync_byte_errors: bump(e.ts_sync_byte_errors, sync_bad),
        sync_byte_errors: bump(e.sync_byte_errors, sync_bad),
        continuity_counter_errors: if pid != 0x1FFF {
            sd.error_count
        } else {
            e.continuity_counter_errors
        },
        pat_errors: bump(e.pat_errors, pid == 0 && pat_error(p)),
        pmt_errors: bump(e.pmt_errors, pmt_check_applies(pid, sd) && pmt_error(p, sd)),
        pid_map_errors: bump(
            e.pid_map_errors,
            pid > 0 && pid < 0x1FFF && pid != sd.pmt_pid && !pid_known,
        ),
        ..e
    }
}

/// TR 101 290 priority 1 checks of one packet of `pid`: sync byte,
/// continuity counter (taken from the stream's error count), PAT, PMT and
/// PID-map errors.
pub fn tr101290_p1_check(
    packet: &[u8],
    errors: &mut Tr101290Errors,
    pid: u16,
    stream_data: &mut StreamData,
    pid_map: &PidMap,
)
    requires
        p1_readable(packet@, pid, old(stream_data)@),
    ensures
        final(stream_data)@ == old(stream_data)@,
        *final(errors) == p1_errors(
            *old(errors),
            packet@,
            pid,
            old(stream_data)@,
            pid_map_entries(*pid_map).dom().contains(pid),
        ),
{
    if packet[0] != 0x47 {
        errors.ts_sync_byte_errors = errors.ts_sync_byte_errors.wrapping_add(1);
    }

    if packet[0] != 0x47 {
        errors.sync_byte_errors = errors.sync_byte_errors.wrapping_add(1);
    }

    if pid != 0x1FFF {
        errors.continuity_counter_errors = stream_data.error_count;
    }

    if pid == 0 {
        let section_syntax_indicator = (packet[1] & 0x80) != 0;
        let section_length = (((packet[1] & 0x0F) as u16) << 8) | packet[2] as u16;
        if section_syntax_indicator && section_length >= 13 && packet.len() >= 8 {
            let table_id = packet[5];
            let section_number = packet[6];
            let last_section_number = packet[7];
            if table_id == 0x00 && section_number == 0x00 && last_section_number == 0x00 {
                let program_count = (section_length - 9) / 4;
                let mut i: usize = 8;
                let mut valid_programs: u16 = 0;
                while i < packet.len() - 4 && valid_programs < program_count
                    invariant
                        packet@.len() >= 8,
                        i >= 8,
                        program_count >= 1,
                        valid_programs <= program_count,
                        valid_programs == 0 ==> (pat_program_found_from(packet@, 8)
                            == pat_program_found_from(packet@, i as int)),
                        valid_programs > 0 ==> pat_program_found_from(packet@, 8),
                    decreases packet.len() - i,
                {
                    let program_number = (packet[i] as u16) << 8 | packet[i + 1] as u16;
                    if program_number != 0 {
                        valid_programs += 1;
                    }
                    i += 4;
                }
                if valid_programs == 0 {
                    errors.pat_errors = errors.pat_errors.wrapping_add(1);
                }
            } else {
                errors.pat_errors = errors.pat_errors.wrapping_add(1);
            }
        } else if packet.len() >= 8 && packet[5] == 0x00 {
            // a short PAT section of table 0 is not counted
        } else {
            errors.pat_errors = errors.pat_errors.wrapping_add(1);
        }
    }

    if pid == stream_data.pmt_pid && stream_data.pmt_pid != 0 && stream_data.pmt_pid != 0x1FFF
        && stream_data.pmt_pid != 0xFFFF {
        let section_syntax_indicator = (packet[1] & 0x80) != 0;
        let section_length = (((packet[1] & 0x0F) as u16) << 8) | packet[2] as u16;
        if section_syntax_indicator && packet.len() >= 4 && section_length >= 13 {
            let table_id = packet[3];
            if table_id == 0x02 {
                let program_number = (packet[4] as u16) << 8 | packet[5] as u16;
                let current_next_indicator = (packet[6] & 0x01) != 0;
                let section_number = packet[7];
                let last_section_number = packet[8];
                let program_info_length = (((packet[10] & 0x0F) as u16) << 8)
                    | packet[11] as u16;
                let b10 = packet[10];
                let b11 = packet[11];
                assert((((b10 & 0x0F) as u16) << 8) | (b11 as u16) <= 0xFFF) by (bit_vector);

                if program_number == stream_data.program_number && current_next_indicator
                    && section_number == 0 && last_section_number == 0 && program_info_length
                    + 12 <= section_length {
                    // a valid PMT is not counted
                } else {
                    errors.pmt_errors = errors.pmt_errors.wrapping_add(1);
                }
            } else {
                errors.pmt_errors = errors.pmt_errors.wrapping_add(1);
            }
        } else {
            errors.pmt_errors = errors.pmt_errors.wrapping_add(1);
        }
    }

    if pid > 0 && pid < 0x1FFF && pid != stream_data.pmt_pid && !pid_map_contains(pid_map, pid) {
        errors.pid_map_errors = errors.pid_map_errors.wrapping_add(1);
    }
}

// ---------------------------------------------------------------------------
// Priority 2
// ---------------------------------------------------------------------------

/// Where the payload starts behind a one-byte adaptation field length.
pub open spec fn p2_payload_start(p: Seq<u8>) -> int {
    5 + p[4]
}

/// True when the CRC check applies: adaptation field and payload present,
/// room for the CRC, and byte 1 bit 7 set.
pub open spec fn crc_check_applies(p: Seq<u8>) -> bool {
    &&& p[3] & 0x20 != 0
    &&& p[3] & 0x10 != 0
    &&& p2_payload_start(p) + 4 <= p.len()
    &&& p[1] & 0x80 != 0
}

/// The bytes over which the checksum is computed.
pub open spec fn crc_payload(p: Seq<u8>) -> Seq<u8> {
    p.subrange(p2_payload_start(p), p.len() - 4)
}

/// The big-endian checksum stored in the 4 bytes before the payload.
pub open spec fn stored_crc(p: Seq<u8>) -> u32 {
    let s = p2_payload_start(p);
    ((p[s - 4] as u32) << 24) | ((p[s - 3] as u32) << 16) | ((p[s - 2] as u32) << 8) | (p[s
        - 1] as u32)
}

/// True when the adaptation field is complete and flags a PCR.
pub open spec fn p2_has_pcr(p: Seq<u8>) -> bool {
    has_adaptation(p) && p.len() >= 6 && p.len() >= 6 + p[4] && p[5] & 0x10 != 0
}

/// The PCR as the priority 2 checks compute it from bytes 6..12.
pub open spec fn p2_pcr(p: Seq<u8>) -> u64 {
    let base: u64 = ((p[6] as u64) << 40) | ((p[7] as u64) << 32) | ((p[8] as u64) << 24) | ((
    p[9] as u64) << 16) | (((p[10] & 0xFE) as u64) << 8);
    let ext: u64 = (((p[10] & 0x01) as u64) << 8) | (p[11] as u64);
    (base * 300 + ext) as u64
}

/// The PTS as the priority 2 checks compute it from bytes 9..15.
pub open spec fn p2_pts(p: Seq<u8>) -> u64 {
    let high: u64 = (((p[9] & 0x0E) as u64) << 32) | ((p[10] as u64) << 24) | ((p[11] as u64)
        << 16) | ((p[12] as u64) << 8) | ((p[13] & 0xFE) as u64);
    let low: u64 = (((p[13] & 0x01) as u64) << 8) | (p[14] as u64);
    high | low
}

/// The bytes that the priority 2 checks read are present.
pub open spec fn p2_readable(p: Seq<u8>) -> bool {
    &&& p.len() >= 8
    &&& p2_has_pcr(p) ==> p.len() >= 12
    &&& p[7] & 0x80 != 0 ==> p.len() >= 15
}

/// Tells whether the priority 2 checks can read `packet`.
pub fn p2_is_readable(packet: &[u8]) -> (r: bool)
    ensures
        r == p2_readable(packet@),
{
    if packet.len() < 8 {
        return false;
    }
    let adaptation_field_control = (packet[3] & 0x30) >> 4;
    let has_adaptation_field = adaptation_field_control == 0b11 || adaptation_field_control
        == 0b10;
    if has_adaptation_field && packet.len() >= 6 + packet[4] as usize && (packet[5] & 0x10) != 0
        && packet.len() < 12 {
        return false;
    }
    if (packet[7] & 0x80) != 0 && packet.len() < 15 {
        return false;
    }
    true
}

/// True when a new PCR is off from the previous one by more than 500
/// (the signed 64-bit difference, wrapping, with its absolute value).
pub open spec fn pcr_inaccurate(pcr: u64, prev: u64) -> bool {
    let d = (pcr as i64).wrapping_sub(prev as i64);
    d > 500 || (d < -500 && d != i64::MIN)
}

/// The counters and the stream after the priority 2 checks of one packet,
/// given the checksum `crc` of its payload.
pub open spec fn p2_result(e: Tr101290Errors, p: Seq<u8>, sd: StreamDataView, crc: u32) -> (
    Tr101290Errors,
    StreamDataView,
) {
    let pcr_present = p2_has_pcr(p) && p2_pcr(p) != 0;
    let pcr_after = if pcr_present {
        p2_pcr(p)
    } else {
        sd.pcr
    };
    let pts_present = p[7] & 0x80 != 0 && p2_pts(p) != 0;
    let pts = p2_pts(p);
    let pts_bad = pts < sd.pts || pts - sd.pts > 700_000;
    let cat_bad = p[3] == 0x01 && (!section_syntax_bit(p) || section_length_of(p) < 9);
    let errors = Tr101290Errors {
        transport_error_indicator_errors: bump(e.transport_error_indicator_errors, p[1] & 0x80 != 0),
        crc_errors: bump(e.crc_errors, crc_check_applies(p) && stored_crc(p) != crc),
        pcr_accuracy_errors: bump(
            e.pcr_accuracy_errors,
            pcr_present && pcr_inaccurate(p2_pcr(p), sd.pcr),
        ),
        pcr_discontinuity_indicator_errors: bump(
            e.pcr_discontinuity_indicator_errors,
            p[5] & 0x80 != 0 && pcr_after & 0x01 == 1,
        ),
        pts_errors: bump(e.pts_errors, pts_present && pts_bad),
        cat_errors: bump(e.cat_errors, cat_bad),
        ..e
    };
    let stream = StreamDataView {
        pcr: pcr_after,
        pts: if pts_present {
            pts
        } else {
            sd.pts
        },
        ..sd
    };
    (errors, stream)
}

/// TR 101 290 priority 2 checks of one packet: transport error indicator,
/// CRC, PCR accuracy, repetition and discontinuity, PTS and CAT errors;
/// the stream's PCR and PTS follow the packet.
pub fn tr101290_p2_check(packet: &[u8], errors: &mut Tr101290Errors, stream_data: &mut StreamData)
    requires
        p2_readable(packet@),
    ensures
        (*final(errors), final(stream_data)@) == p2_result(
            *old(errors),
            packet@,
            old(stream_data)@,
            crc32_iso_hdlc(crc_payload(packet@)),
        ),
{
    let has_adaptation_field = (packet[3] & 0x20) != 0;
    let has_payload = (packet[3] & 0x10) != 0;
    let mut payload_crc32: u32 = 0;
    if has_adaptation_field && has_payload {
        let payload_start = 5 + packet[4] as usize;
        if payload_start + 4 <= packet.len() && (packet[1] & 0x80) != 0 {
            payload_crc32 = crc32_checksum(
                slice_subrange(packet, payload_start, packet.len() - 4),
            );
        }
    }
    tr101290_p2_check_with_crc(packet, errors, stream_data, payload_crc32);
}

/// The priority 2 checks of `tr101290_p2_check`, with the checksum of the
/// payload given as `payload_crc32`.
pub fn tr101290_p2_check_with_crc(
    packet: &[u8],
    errors: &mut Tr101290Errors,
    stream_data: &mut StreamData,
    payload_crc32: u32,
)
    requires
        p2_readable(packet@),
    ensures
        (*final(errors), final(stream_data)@) == p2_result(
            *old(errors),
            packet@,
            old(stream_data)@,
            payload_crc32,
        ),
{
    if (packet[1] & 0x80) != 0 {
        errors.transport_error_indicator_errors =
        errors.transport_error_indicator_errors.wrapping_add(1);
    }

    let has_adaptation_field = (packet[3] & 0x20) != 0;
    let has_payload = (packet[3] & 0x10) != 0;
    if has_adaptation_field && has_payload {
        let adaptation_field_length = packet[4] as usize;
        let payload_start = 5 + adaptation_field_length;
        if payload_start + 4 <= packet.len() {
            let crc32_valid = (packet[1] & 0x80) != 0;
            if crc32_valid {
                let b0 = packet[payload_start - 4];
                let b1 = packet[payload_start - 3];
                let b2 = packet[payload_start - 2];
                let b3 = packet[payload_start - 1];
                let crc32 = ((b0 as u32) << 24) | ((b1 as u32) << 16) | ((b2 as u32) << 8) | (
                b3 as u32);
                if crc32 != payload_crc32 {
                    errors.crc_errors = errors.crc_errors.wrapping_add(1);
                }
            }
        }
    }

    let adaptation_field_control = (packet[3] & 0x30) >> 4;
    let has_adaptation_field = adaptation_field_control == 0b11 || adaptation_field_control
        == 0b10;

    let mut has_pcr = false;
    if has_adaptation_field && packet.len() >= 6 {
        let adaptation_field_length = packet[4] as usize;
        if packet.len() >= 6 + adaptation_field_length {
            has_pcr = (packet[5] & 0x10) != 0;
        }
    }

    if has_pcr {
        let pcr = pcr_of_bytes(packet);
        if pcr != 0 {
            let max_pcr_accuracy_error: i64 = 500;
            let prev_pcr = stream_data.pcr;
            let d = (pcr as i64).wrapping_sub(prev_pcr as i64);
            if d > max_pcr_accuracy_error || (d < -max_pcr_accuracy_error && d != i64::MIN) {
                errors.pcr_accuracy_errors = errors.pcr_accuracy_errors.wrapping_add(1);
            }
            stream_data.pcr = pcr;
        }
    }

    if has_pcr {
        let pcr = pcr_of_bytes(packet);
        if pcr != 0 {
            let max_pcr_repetition_interval: u64 = 40_000;
            let prev_pcr = stream_data.pcr;
            if pcr - prev_pcr > max_pcr_repetition_interval {
                errors.pcr_repetition_errors = errors.pcr_repetition_errors.wrapping_add(1);
            }
            stream_data.pcr = pcr;
        }
    }

    let has_discontinuity_indicator = (packet[5] & 0x80) != 0;
    if has_discontinuity_indicator {
        let prev_discontinuity_state = stream_data.pcr & 0x01;
        if prev_discontinuity_state == 1 {
            errors.pcr_discontinuity_indicator_errors =
            errors.pcr_discontinuity_indicator_errors.wrapping_add(1);
        }
    }

    let has_pts = (packet[7] & 0x80) != 0;
    if has_pts {
        let pts = pts_of_bytes(packet);
        if pts != 0 {
            let max_pts_interval: u64 = 700_000;
            let prev_pts = stream_data.pts;

            if pts < prev_pts {
                errors.pts_errors = errors.pts_errors.wrapping_add(1);
            } else if pts - prev_pts > max_pts_interval {
                let max_pts_gap: u64 = 90_000;
                if pts - prev_pts > max_pts_gap {
                    errors.pts_errors = errors.pts_errors.wrapping_add(1);
                }
            }
            stream_data.pts = pts;
        }
    }

    let has_cat = packet[3] == 0x01;
    if has_cat {
        let section_syntax_indicator = (packet[1] & 0x80) != 0;
        let section_length = (((packet[1] & 0x0F) as u16) << 8) | (packet[2] as u16);
        if !section_syntax_indicator || section_length < 9 {
            errors.cat_errors = errors.cat_errors.wrapping_add(1);
        }
    }
}

fn pcr_of_bytes(packet: &[u8]) -> (r: u64)
    requires
        packet@.len() >= 12,
    ensures
        r == p2_pcr(packet@),
{
    let b6 = packet[6];
    let b7 = packet[7];
    let b8 = packet[8];
    let b9 = packet[9];
    let b10 = packet[10];
    let b11 = packet[11];
    let pcr_base = ((b6 as u64) << 40) | ((b7 as u64) << 32) | ((b8 as u64) << 24) | ((b9 as u64)
        << 16) | (((b10 & 0xFE) as u64) << 8);
    let pcr_ext = (((b10 & 0x01) as u64) << 8) | (b11 as u64);
    assert(((b6 as u64) << 40) | ((b7 as u64) << 32) | ((b8 as u64) << 24) | ((b9 as u64) << 16)
        | (((b10 & 0xFE) as u64) << 8) < 0x1_0000_0000_0000) by (bit_vector);
    assert((((b10 & 0x01) as u64) << 8) | (b11 as u64) < 0x200) by (bit_vector);
    pcr_base * 300 + pcr_ext
}

fn pts_of_bytes(packet: &[u8]) -> (r: u64)
    requires
        packet@.len() >= 15,
    ensures
        r == p2_pts(packet@),
{
    let pts_high = (((packet[9] & 0x0E) as u64) << 32) | ((packet[10] as u64) << 24) | ((
    packet[11] as u64) << 16) | ((packet[12] as u64) << 8) | ((packet[13] & 0xFE) as u64);
    let pts_low = (((packet[13] & 0x01) as u64) << 8) | (packet[14] as u64);
    pts_high | pts_low
}

// ---------------------------------------------------------------------------
// Laws
// ---------------------------------------------------------------------------

/// True when counter `c1` is `c0` or one more (wrapping).
pub open spec fn steps_by_at_most_one(c0: u32, c1: u32) -> bool {
    c1 == c0 || c1 == c0.wrapping_add(1)
}

/// The priority 1 checks count at most one error of each kind per packet,
/// count no sync error for a packet that starts with 0x47, and leave the
/// priority 2 counters alone.
pub proof fn lemma_p1_counts(e: Tr101290Errors, p: Seq<u8>, pid: u16, sd: StreamDataView, known: bool)
    ensures
        ({
            let r = p1_errors(e, p, pid, sd, known);
            &&& steps_by_at_most_one(e.ts_sync_byte_errors, r.ts_sync_byte_errors)
            &&& steps_by_at_most_one(e.sync_byte_errors, r.sync_byte_errors)
            &&& steps_by_at_most_one(e.pat_errors, r.pat_errors)
            &&& steps_by_at_most_one(e.pmt_errors, r.pmt_errors)
            &&& steps_by_at_most_one(e.pid_map_errors, r.pid_map_errors)
            &&& p[0] == 0x47 ==> r.ts_sync_byte_errors == e.ts_sync_byte_errors
                && r.sync_byte_errors == e.sync_byte_errors
            &&& pid != 0 ==> r.pat_errors == e.pat_errors
            &&& r.transport_error_indicator_errors == e.transport_error_indicator_errors
            &&& r.crc_errors == e.crc_errors
            &&& r.pcr_repetition_errors == e.pcr_repetition_errors
            &&& r.pcr_discontinuity_indicator_errors == e.pcr_discontinuity_indicator_errors
            &&& r.pcr_accuracy_errors == e.pcr_accuracy_errors
            &&& r.pts_errors == e.pts_errors
            &&& r.cat_errors == e.cat_errors
        }),
{
}

/// The priority 2 checks count at most one error of each kind per packet,
/// leave the priority 1 counters alone, never count a PCR repetition error
/// (the interval is measured against the PCR just stored), count a CRC
/// error exactly when the check applies and the stored checksum differs,
/// and count no PTS error for a PTS that advances by at most 700000.
pub proof fn lemma_p2_counts(e: Tr101290Errors, p: Seq<u8>, sd: StreamDataView, crc: u32)
    ensures
        ({
            let (r, s) = p2_result(e, p, sd, crc);
            &&& steps_by_at_most_one(e.transport_error_indicator_errors, r.transport_error_indicator_errors)
            &&& steps_by_at_most_one(e.crc_errors, r.crc_errors)
            &&& steps_by_at_most_one(e.pcr_accuracy_errors, r.pcr_accuracy_errors)
            &&& steps_by_at_most_one(e.pcr_discontinuity_indicator_errors, r.pcr_discontinuity_indicator_errors)
            &&& steps_by_at_most_one(e.pts_errors, r.pts_errors)
            &&& steps_by_at_most_one(e.cat_errors, r.cat_errors)
            &&& r.pcr_repetition_errors == e.pcr_repetition_errors
            &&& r.ts_sync_byte_errors == e.ts_sync_byte_errors
            &&& r.sync_byte_errors == e.sync_byte_errors
            &&& r.continuity_counter_errors == e.continuity_counter_errors
            &&& r.pat_errors == e.pat_errors
            &&& r.pmt_errors == e.pmt_errors
            &&& r.pid_map_errors == e.pid_map_errors
            &&& (r.crc_errors != e.crc_errors <==> crc_check_applies(p) && stored_crc(p) != crc)
            &&& (p[7] & 0x80 != 0 && sd.pts <= p2_pts(p) <= sd.pts + 700_000) ==> r.pts_errors
                == e.pts_errors
        }),
{
    let c = e.crc_errors;
    assert(c.wrapping_add(1) != c) by (bit_vector);
}

} // verus!
