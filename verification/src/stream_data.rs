use vstd::prelude::*;
use std::collections::VecDeque;
use std::sync::Arc;
use vstd::string::StringExecFns;
use crate::text::{decimal_of, decimal_text};
pub use crate::psi::{
    extract_pid, extract_timestamp, identify_video_pid, parse_and_store_pat, parse_descriptors,
    parse_pat, parse_pmt, stream_type_name,
};
pub use crate::streams::{
    cleanup_stale_streams, determine_stream_program_number, determine_stream_type,
    determine_stream_type_number, get_pid_map, process_mpegts_packet, process_packet,
    update_pid_map,
};
pub use crate::tr101290::{tr101290_p1_check, tr101290_p2_check};
pub use crate::pid_map::PidMap;

verus! {

/// Number of capture inter-arrival samples kept in the rolling window.
pub const IAT_CAPTURE_WINDOW_SIZE: usize = 100;

/// PID of the Program Association Table.
pub const PAT_PID: u16 = 0;

/// Size of one MPEG transport-stream packet.
pub const TS_PACKET_SIZE: usize = 188;

/// Video codec of an elementary stream, as announced in a PMT.
#[derive(Clone, Copy, Debug, PartialEq, Eq, Structural)]
pub enum Codec {
    NONE,
    MPEG2,
    H264,
    H265,
}

impl Codec {
    /// The display name of the codec.
    pub fn name(&self) -> (r: &'static str)
        ensures
            r@ == codec_name(*self),
    {
        match self {
            Codec::NONE => "NONE",
            Codec::MPEG2 => "MPEG2",
            Codec::H264 => "H264",
            Codec::H265 => "H265",
        }
    }
}

/// The display name of each codec.
pub open spec fn codec_name(c: Codec) -> Seq<char> {
    match c {
        Codec::NONE => "NONE"@,
        Codec::MPEG2 => "MPEG2"@,
        Codec::H264 => "H264"@,
        Codec::H265 => "H265"@,
    }
}

/// Counters of the TR 101 290 priority 1 and priority 2 indicators.
#[derive(Clone, Copy, Debug, PartialEq, Eq, Structural)]
pub struct Tr101290Errors {
    // p1 errors
    pub ts_sync_byte_errors: u32,
    pub sync_byte_errors: u32,
    pub continuity_counter_errors: u32,
    pub pat_errors: u32,
    pub pmt_errors: u32,
    pub pid_map_errors: u32,
    // p2 errors
    pub transport_error_indicator_errors: u32,
    pub crc_errors: u32,
    pub pcr_repetition_errors: u32,
    pub pcr_discontinuity_indicator_errors: u32,
    pub pcr_accuracy_errors: u32,
    pub pts_errors: u32,
    pub cat_errors: u32,
}

impl Tr101290Errors {
    /// All counters at zero.
    pub fn new() -> (r: Self)
        ensures
            r == zero_errors(),
    {
        Tr101290Errors {
            ts_sync_byte_errors: 0,
            sync_byte_errors: 0,
            continuity_counter_errors: 0,
            pat_errors: 0,
            pmt_errors: 0,
            pid_map_errors: 0,
            transport_error_indicator_errors: 0,
            crc_errors: 0,
            pcr_repetition_errors: 0,
            pcr_discontinuity_indicator_errors: 0,
            pcr_accuracy_errors: 0,
            pts_errors: 0,
            cat_errors: 0,
        }
    }
}

/// The text of the counters: each counter's name and value, separated by
/// commas, in declaration order.
pub open spec fn errors_text_of(e: Tr101290Errors) -> Seq<char> {
    "TS Sync Byte Errors: "@ + decimal_of(e.ts_sync_byte_errors as nat)
        + ", Sync Byte Errors: "@ + decimal_of(e.sync_byte_errors as nat)
        + ", Continuity Counter Errors: "@ + decimal_of(e.continuity_counter_errors as nat)
        + ", PAT Errors: "@ + decimal_of(e.pat_errors as nat)
        + ", PMT Errors: "@ + decimal_of(e.pmt_errors as nat)
        + ", PID Map Errors: "@ + decimal_of(e.pid_map_errors as nat)
        + ", Transport Error Indicator Errors: "@ + decimal_of(e.transport_error_indicator_errors as nat)
        + ", CRC Errors: "@ + decimal_of(e.crc_errors as nat)
        + ", PCR Repetition Errors: "@ + decimal_of(e.pcr_repetition_errors as nat)
        + ", PCR Discontinuity Indicator Errors: "@ + decimal_of(e.pcr_discontinuity_indicator_errors as nat)
        + ", PCR Accuracy Errors: "@ + decimal_of(e.pcr_accuracy_errors as nat)
        + ", PTS Errors: "@ + decimal_of(e.pts_errors as nat)
        + ", CAT Errors: "@ + decimal_of(e.cat_errors as nat)
}

impl Tr101290Errors {
    /// The text of the counters: each counter's name and value, separated
    /// by commas, in declaration order.
    pub fn text(&self) -> (r: String)
        ensures
            r@ == errors_text_of(*self),
    {
        let mut out = String::new();
        out.append("TS Sync Byte Errors: ");
        out.append(decimal_text(self.ts_sync_byte_errors as u64).as_str());
        out.append(", Sync Byte Errors: ");
        out.append(decimal_text(self.sync_byte_errors as u64).as_str());
        out.append(", Continuity Counter Errors: ");
        out.append(decimal_text(self.continuity_counter_errors as u64).as_str());
        out.append(", PAT Errors: ");
        out.append(decimal_text(self.pat_errors as u64).as_str());
        out.append(", PMT Errors: ");
        out.append(decimal_text(self.pmt_errors as u64).as_str());
        out.append(", PID Map Errors: ");
        out.append(decimal_text(self.pid_map_errors as u64).as_str());
        out.append(", Transport Error Indicator Errors: ");
        out.append(decimal_text(self.transport_error_indicator_errors as u64).as_str());
        out.append(", CRC Errors: ");
        out.append(decimal_text(self.crc_errors as u64).as_str());
        out.append(", PCR Repetition Errors: ");
        out.append(decimal_text(self.pcr_repetition_errors as u64).as_str());
        out.append(", PCR Discontinuity Indicator Errors: ");
        out.append(decimal_text(self.pcr_discontinuity_indicator_errors as u64).as_str());
        out.append(", PCR Accuracy Errors: ");
        out.append(decimal_text(self.pcr_accuracy_errors as u64).as_str());
        out.append(", PTS Errors: ");
        out.append(decimal_text(self.pts_errors as u64).as_str());
        out.append(", CAT Errors: ");
        out.append(decimal_text(self.cat_errors as u64).as_str());
        assert(out@ =~= errors_text_of(*self));
        out
    }
}

/// The error record with every counter at zero.
pub open spec fn zero_errors() -> Tr101290Errors {
    Tr101290Errors {
        ts_sync_byte_errors: 0,
        sync_byte_errors: 0,
        continuity_counter_errors: 0,
        pat_errors: 0,
        pmt_errors: 0,
        pid_map_errors: 0,
        transport_error_indicator_errors: 0,
        crc_errors: 0,
        pcr_repetition_errors: 0,
        pcr_discontinuity_indicator_errors: 0,
        pcr_accuracy_errors: 0,
        pts_errors: 0,
        cat_errors: 0,
    }
}

/// One program of a Program Association Table.
#[derive(Clone, Copy, Debug, PartialEq, Eq, Structural)]
pub struct PatEntry {
    pub program_number: u16,
    pub pmt_pid: u16,
}

/// A descriptor (tag, length, data) of a PSI table.
#[derive(Clone, Debug)]
pub struct Descriptor {
    pub tag: u8,
    pub data: Vec<u8>,
}

impl View for Descriptor {
    type V = (u8, Seq<u8>);

    open spec fn view(&self) -> (u8, Seq<u8>) {
        (self.tag, self.data@)
    }
}

/// One elementary stream of a Program Map Table.
pub struct PmtEntry {
    pub stream_pid: u16,
    pub stream_type: u8,
    pub program_number: u16,
    pub descriptors: Vec<Descriptor>,
}

/// The abstract content of a PMT entry.
pub struct PmtEntryView {
    pub stream_pid: u16,
    pub stream_type: u8,
    pub program_number: u16,
    pub descriptors: Seq<(u8, Seq<u8>)>,
}

/// The abstract content of a descriptor list.
pub open spec fn descriptors_view(ds: Seq<Descriptor>) -> Seq<(u8, Seq<u8>)> {
    ds.map_values(|d: Descriptor| d@)
}

impl View for PmtEntry {
    type V = PmtEntryView;

    open spec fn view(&self) -> PmtEntryView {
        PmtEntryView {
            stream_pid: self.stream_pid,
            stream_type: self.stream_type,
            program_number: self.program_number,
            descriptors: descriptors_view(self.descriptors@),
        }
    }
}

/// A parsed Program Map Table: its elementary streams and program descriptors.
pub struct Pmt {
    pub entries: Vec<PmtEntry>,
    pub descriptors: Vec<Descriptor>,
}

/// The abstract content of a PMT.
pub struct PmtView {
    pub entries: Seq<PmtEntryView>,
    pub descriptors: Seq<(u8, Seq<u8>)>,
}

impl View for Pmt {
    type V = PmtView;

    open spec fn view(&self) -> PmtView {
        PmtView {
            entries: self.entries@.map_values(|e: PmtEntry| e@),
            descriptors: descriptors_view(self.descriptors@),
        }
    }
}

/// The PMT PID and program number found in the last PAT, with a copy of it.
pub struct PmtInfo {
    pub pid: u16,
    pub packet: Vec<u8>,
    pub program_number: u16,
}

/// Hands out another handle to a shared packet buffer.
#[verifier::external_body]
pub(crate) fn share_packet(packet: &Arc<Vec<u8>>) -> (r: Arc<Vec<u8>>)
    ensures
        r == *packet,
{
    Arc::clone(packet)
}

/// Borrows the bytes of a shared packet buffer.
#[verifier::external_body]
pub(crate) fn packet_bytes(packet: &Arc<Vec<u8>>) -> (r: &[u8])
    ensures
        r@ == packet@,
{
    packet.as_slice()
}

/// Statistics and identity of one elementary stream (one PID), and of the
/// transport-stream packet that was last seen for it.
#[derive(Debug)]
pub struct StreamData {
    pub pid: u16,
    pub pmt_pid: u16,
    pub program_number: u16,
    pub stream_type: String,
    pub continuity_counter: u8,
    pub timestamp: u64,
    pub bitrate: u32,
    pub bitrate_max: u32,
    pub bitrate_min: u32,
    pub bitrate_avg: u32,
    pub iat: u64,
    pub iat_max: u64,
    pub iat_min: u64,
    pub iat_avg: u64,
    pub error_count: u32,
    pub current_error_count: u32,
    pub last_arrival_time: u64,
    pub last_sample_time: u64,
    pub start_time: u64,
    pub total_bits: u64,
    pub total_bits_sample: u64,
    pub count: u32,
    pub packet: Arc<Vec<u8>>,
    pub packet_start: usize,
    pub packet_len: usize,
    pub rtp_timestamp: u32,
    pub rtp_payload_type: u8,
    pub rtp_payload_type_name: String,
    pub rtp_line_number: u16,
    pub rtp_line_offset: u16,
    pub rtp_line_length: u16,
    pub rtp_field_id: u8,
    pub rtp_line_continuation: u8,
    pub rtp_extended_sequence_number: u16,
    pub stream_type_number: u8,
    pub capture_time: u64,
    pub capture_iat: u64,
    pub source_ip: String,
    pub source_port: i32,
    pub has_image: u8,
    pub image_pts: u64,
    pub capture_iat_max: u64,
    pub log_message: String,
    pub probe_id: String,
    pub captions: String,
    pub pid_map: String,
    pub scte35: String,
    pub audio_loudness: String,
    pub pts: u64,
    pub pcr: u64,
}

/// The abstract content of a `StreamData`: its strings and packet bytes as
/// sequences.
pub struct StreamDataView {
    pub pid: u16,
    pub pmt_pid: u16,
    pub program_number: u16,
    pub stream_type: Seq<char>,
    pub continuity_counter: u8,
    pub timestamp: u64,
    pub bitrate: u32,
    pub bitrate_max: u32,
    pub bitrate_min: u32,
    pub bitrate_avg: u32,
    pub iat: u64,
    pub iat_max: u64,
    pub iat_min: u64,
    pub iat_avg: u64,
    pub error_count: u32,
    pub current_error_count: u32,
    pub last_arrival_time: u64,
    pub last_sample_time: u64,
    pub start_time: u64,
    pub total_bits: u64,
    pub total_bits_sample: u64,
    pub count: u32,
    pub packet: Seq<u8>,
    pub packet_start: usize,
    pub packet_len: usize,
    pub rtp_timestamp: u32,
    pub rtp_payload_type: u8,
    pub rtp_payload_type_name: Seq<char>,
    pub rtp_line_number: u16,
    pub rtp_line_offset: u16,
    pub rtp_line_length: u16,
    pub rtp_field_id: u8,
    pub rtp_line_continuation: u8,
    pub rtp_extended_sequence_number: u16,
    pub stream_type_number: u8,
    pub capture_time: u64,
    pub capture_iat: u64,
    pub source_ip: Seq<char>,
    pub source_port: i32,
    pub has_image: u8,
    pub image_pts: u64,
    pub capture_iat_max: u64,
    pub log_message: Seq<char>,
    pub probe_id: Seq<char>,
    pub captions: Seq<char>,
    pub pid_map: Seq<char>,
    pub scte35: Seq<char>,
    pub audio_loudness: Seq<char>,
    pub pts: u64,
    pub pcr: u64,
}

impl View for StreamData {
    type V = StreamDataView;

    open spec fn view(&self) -> StreamDataView {
        StreamDataView {
            pid: self.pid,
            pmt_pid: self.pmt_pid,
            program_number: self.program_number,
            stream_type: self.stream_type@,
            continuity_counter: self.continuity_counter,
            timestamp: self.timestamp,
            bitrate: self.bitrate,
            bitrate_max: self.bitrate_max,
            bitrate_min: self.bitrate_min,
            bitrate_avg: self.bitrate_avg,
            iat: self.iat,
            iat_max: self.iat_max,
            iat_min: self.iat_min,
            iat_avg: self.iat_avg,
            error_count: self.error_count,
            current_error_count: self.current_error_count,
            last_arrival_time: self.last_arrival_time,
            last_sample_time: self.last_sample_time,
            start_time: self.start_time,
            total_bits: self.total_bits,
            total_bits_sample: self.total_bits_sample,
            count: self.count,
            packet: self.packet@,
            packet_start: self.packet_start,
            packet_len: self.packet_len,
            rtp_timestamp: self.rtp_timestamp,
            rtp_payload_type: self.rtp_payload_type,
            rtp_payload_type_name: self.rtp_payload_type_name@,
            rtp_line_number: self.rtp_line_number,
            rtp_line_offset: self.rtp_line_offset,
            rtp_line_length: self.rtp_line_length,
            rtp_field_id: self.rtp_field_id,
            rtp_line_continuation: self.rtp_line_continuation,
            rtp_extended_sequence_number: self.rtp_extended_sequence_number,
            stream_type_number: self.stream_type_number,
            capture_time: self.capture_time,
            capture_iat: self.capture_iat,
            source_ip: self.source_ip@,
            source_port: self.source_port,
            has_image: self.has_image,
            image_pts: self.image_pts,
            capture_iat_max: self.capture_iat_max,
            log_message: self.log_message@,
            probe_id: self.probe_id@,
            captions: self.captions@,
            pid_map: self.pid_map@,
            scte35: self.scte35@,
            audio_loudness: self.audio_loudness@,
            pts: self.pts,
            pcr: self.pcr,
        }
    }
}

impl Clone for StreamData {
    fn clone(&self) -> (r: Self)
        ensures
            r == *self,
    {
        StreamData {
            pid: self.pid,
            pmt_pid: self.pmt_pid,
            program_number: self.program_number,
            stream_type: self.stream_type.clone(),
            continuity_counter: self.continuity_counter,
            timestamp: self.timestamp,
            bitrate: self.bitrate,
            bitrate_max: self.bitrate_max,
            bitrate_min: self.bitrate_min,
            bitrate_avg: self.bitrate_avg,
            iat: self.iat,
            iat_max: self.iat_max,
            iat_min: self.iat_min,
            iat_avg: self.iat_avg,
            error_count: self.error_count,
            current_error_count: self.current_error_count,
            last_arrival_time: self.last_arrival_time,
            last_sample_time: self.last_sample_time,
            start_time: self.start_time,
            total_bits: self.total_bits,
            total_bits_sample: self.total_bits_sample,
            count: self.count,
            packet: share_packet(&self.packet),
            packet_start: self.packet_start,
            packet_len: self.packet_len,
            rtp_timestamp: self.rtp_timestamp,
            rtp_payload_type: self.rtp_payload_type,
            rtp_payload_type_name: self.rtp_payload_type_name.clone(),
            rtp_line_number: self.rtp_line_number,
            rtp_line_offset: self.rtp_line_offset,
            rtp_line_length: self.rtp_line_length,
            rtp_field_id: self.rtp_field_id,
            rtp_line_continuation: self.rtp_line_continuation,
            rtp_extended_sequence_number: self.rtp_extended_sequence_number,
            stream_type_number: self.stream_type_number,
            capture_time: self.capture_time,
            capture_iat: self.capture_iat,
            source_ip: self.source_ip.clone(),
            source_port: self.source_port,
            has_image: self.has_image,
            image_pts: self.image_pts,
            capture_iat_max: self.capture_iat_max,
            log_message: self.log_message.clone(),
            probe_id: self.probe_id.clone(),
            captions: self.captions.clone(),
            pid_map: self.pid_map.clone(),
            scte35: self.scte35.clone(),
            audio_loudness: self.audio_loudness.clone(),
            pts: self.pts,
            pcr: self.pcr,
        }
    }
}

/// `a - b`, or 0 where `b > a`.
pub open spec fn sat_sub(a: u64, b: u64) -> u64 {
    if a >= b {
        (a - b) as u64
    } else {
        0
    }
}

/// What `StreamData::new` builds from its arguments: statistics at zero,
/// the PMT PID unknown (0xFFFF), arrival and sample times at the capture
/// and start times, empty text fields.
pub open spec fn new_stream_view(
    packet: Seq<u8>,
    packet_start: usize,
    packet_len: usize,
    pid: u16,
    stream_type: Seq<char>,
    stream_type_number: u8,
    program_number: u16,
    start_time: u64,
    timestamp: u64,
    continuity_counter: u8,
    capture_timestamp: u64,
    capture_iat: u64,
    source_ip: Seq<char>,
    source_port: i32,
    probe_id: Seq<char>,
) -> StreamDataView {
    StreamDataView {
        pid,
        pmt_pid: 0xFFFF,
        program_number,
        stream_type,
        continuity_counter,
        timestamp,
        bitrate: 0,
        bitrate_max: 0,
        bitrate_min: 0,
        bitrate_avg: 0,
        iat: 0,
        iat_max: 0,
        iat_min: 0,
        iat_avg: 0,
        error_count: 0,
        current_error_count: 0,
        last_arrival_time: capture_timestamp,
        last_sample_time: start_time,
        start_time,
        total_bits: 0,
        total_bits_sample: 0,
        count: 0,
        packet,
        packet_start,
        packet_len,
        rtp_timestamp: 0,
        rtp_payload_type: 0,
        rtp_payload_type_name: Seq::empty(),
        rtp_line_number: 0,
        rtp_line_offset: 0,
        rtp_line_length: 0,
        rtp_field_id: 0,
        rtp_line_continuation: 0,
        rtp_extended_sequence_number: 0,
        stream_type_number,
        capture_time: capture_timestamp,
        capture_iat,
        source_ip,
        source_port,
        has_image: 0,
        image_pts: 0,
        capture_iat_max: capture_iat,
        log_message: Seq::empty(),
        probe_id,
        captions: Seq::empty(),
        pid_map: Seq::empty(),
        scte35: Seq::empty(),
        audio_loudness: Seq::empty(),
        pts: 0,
        pcr: 0,
    }
}

impl StreamData {
    /// A stream record for a packet just seen: statistics at zero, the
    /// arrival time set to the capture time, the PMT PID not yet known.
    pub fn new(
        packet: Arc<Vec<u8>>,
        packet_start: usize,
        packet_len: usize,
        pid: u16,
        stream_type: String,
        stream_type_number: u8,
        program_number: u16,
        start_time: u64,
        timestamp: u64,
        continuity_counter: u8,
        capture_timestamp: u64,
        capture_iat: u64,
        source_ip: String,
        source_port: i32,
        probe_id: String,
    ) -> (r: Self)
        ensures
            r@ == new_stream_view(
                packet@,
                packet_start,
                packet_len,
                pid,
                stream_type@,
                stream_type_number,
                program_number,
                start_time,
                timestamp,
                continuity_counter,
                capture_timestamp,
                capture_iat,
                source_ip@,
                source_port,
                probe_id@,
            ),
    {
        let last_arrival_time = capture_timestamp;
        StreamData {
            pid,
            pmt_pid: 0xFFFF,
            program_number,
            stream_type,
            continuity_counter,
            timestamp,
            bitrate: 0,
            bitrate_max: 0,
            bitrate_min: 0,
            bitrate_avg: 0,
            iat: 0,
            iat_max: 0,
            iat_min: 0,
            iat_avg: 0,
            error_count: 0,
            current_error_count: 0,
            last_arrival_time,
            last_sample_time: start_time,
            start_time,
            total_bits: 0,
            total_bits_sample: 0,
            count: 0,
            packet,
            packet_start,
            packet_len,
            rtp_timestamp: 0,
            rtp_payload_type: 0,
            rtp_payload_type_name: String::new(),
            rtp_line_number: 0,
            rtp_line_offset: 0,
            rtp_line_length: 0,
            rtp_field_id: 0,
            rtp_line_continuation: 0,
            rtp_extended_sequence_number: 0,
            stream_type_number,
            capture_time: capture_timestamp,
            capture_iat,
            source_ip,
            source_port,
            has_image: 0,
            image_pts: 0,
            capture_iat_max: capture_iat,
            log_message: String::new(),
            probe_id,
            captions: String::new(),
            pid_map: String::new(),
            scte35: String::new(),
            audio_loudness: String::new(),
            pts: 0,
            pcr: 0,
        }
    }

    /// Sets the SMPTE 2110 (RTP) fields.
    pub fn set_rtp_fields(
        &mut self,
        rtp_timestamp: u32,
        rtp_payload_type: u8,
        rtp_payload_type_name: String,
        rtp_line_number: u16,
        rtp_line_offset: u16,
        rtp_line_length: u16,
        rtp_field_id: u8,
        rtp_line_continuation: u8,
        rtp_extended_sequence_number: u16,
    )
        ensures
            final(self)@ == (StreamDataView {
                rtp_timestamp,
                rtp_payload_type,
                rtp_payload_type_name: rtp_payload_type_name@,
                rtp_line_number,
                rtp_line_offset,
                rtp_line_length,
                rtp_field_id,
                rtp_line_continuation,
                rtp_extended_sequence_number,
                ..old(self)@
            }),
    {
        self.rtp_timestamp = rtp_timestamp;
        self.rtp_payload_type = rtp_payload_type;
        self.rtp_payload_type_name = rtp_payload_type_name;
        self.rtp_line_number = rtp_line_number;
        self.rtp_line_offset = rtp_line_offset;
        self.rtp_line_length = rtp_line_length;
        self.rtp_field_id = rtp_field_id;
        self.rtp_line_continuation = rtp_line_continuation;
        self.rtp_extended_sequence_number = rtp_extended_sequence_number;
    }

    /// Sets the stream type name.
    pub fn update_stream_type(&mut self, stream_type: String)
        ensures
            final(self)@ == (StreamDataView { stream_type: stream_type@, ..old(self)@ }),
    {
        self.stream_type = stream_type;
    }

    /// Sets the stream type number.
    pub fn update_stream_type_number(&mut self, stream_type_number: u8)
        ensures
            final(self)@ == (StreamDataView { stream_type_number, ..old(self)@ }),
    {
        self.stream_type_number = stream_type_number;
    }

    /// Adds `error_count` to the running error total (wrapping at the
    /// width of the field) and records it as the current error count.
    pub fn increment_error_count(&mut self, error_count: u32)
        ensures
            final(self)@ == (StreamDataView {
                error_count: old(self).error_count.wrapping_add(error_count),
                current_error_count: error_count,
                ..old(self)@
            }),
    {
        self.error_count = self.error_count.wrapping_add(error_count);
        self.current_error_count = error_count;
    }

    /// Adds `count` to the packet count (wrapping at the width of the field).
    pub fn increment_count(&mut self, count: u32)
        ensures
            final(self)@ == (StreamDataView { count: old(self).count.wrapping_add(count), ..old(self)@ }),
    {
        self.count = self.count.wrapping_add(count);
    }

    /// Sets the capture time.
    pub fn update_capture_time(&mut self, capture_timestamp: u64)
        ensures
            final(self)@ == (StreamDataView { capture_time: capture_timestamp, ..old(self)@ }),
    {
        self.capture_time = capture_timestamp;
    }

    /// Sets the source address.
    pub fn update_source_ip(&mut self, source_ip: String)
        ensures
            final(self)@ == (StreamDataView { source_ip: source_ip@, ..old(self)@ }),
    {
        self.source_ip = source_ip;
    }

    /// Stores the port, reinterpreted as a signed 32-bit number.
    pub fn update_source_port(&mut self, source_port: u32)
        ensures
            final(self)@ == (StreamDataView { source_port: source_port as i32, ..old(self)@ }),
    {
        self.source_port = source_port as i32;
    }

    /// Records a new continuity counter. A counter that neither repeats
    /// the previous one nor follows it (modulo 16) counts as one error, and
    /// the size of the jump becomes the current error count; otherwise the
    /// current error count is reset.
    pub fn set_continuity_counter(&mut self, continuity_counter: u8)
        ensures
            final(self)@ == continuity_after(old(self)@, continuity_counter),
    {
        let previous_continuity_counter = self.continuity_counter;
        assert(continuity_counter & 0x0F <= 15) by (bit_vector);
        self.continuity_counter = continuity_counter & 0x0F;

        if self.continuity_counter != (previous_continuity_counter.wrapping_add(1)) & 0x0F
            && self.continuity_counter != previous_continuity_counter
        {
            let error_count = if self.continuity_counter < previous_continuity_counter {
                (self.continuity_counter + 16).wrapping_sub(previous_continuity_counter)
            } else {
                self.continuity_counter - previous_continuity_counter
            } as u32;

            self.error_count = self.error_count.wrapping_add(1);
            self.current_error_count = error_count;
        } else {
            self.current_error_count = 0;
        }

        self.continuity_counter = continuity_counter;
    }

    /// Accounts for one packet of `packet_size` bytes: adds its bits to the
    /// totals and, once the stream has run for a second, refreshes the
    /// bitrate (once per second of capture time) and the inter-arrival
    /// statistics, and counts the packet.
    pub fn update_stats(&mut self, packet_size: usize)
        ensures
            final(self)@ == stats_after(old(self)@, packet_size),
    {
        let bits = (packet_size as u64).wrapping_mul(8);
        self.total_bits = self.total_bits.wrapping_add(bits);
        self.total_bits_sample = self.total_bits_sample.wrapping_add(bits);

        let run_time_ms = if self.capture_time >= self.start_time {
            self.capture_time - self.start_time
        } else {
            0
        };
        let elapsed_time_since_last_sample = if self.capture_time >= self.last_sample_time {
            self.capture_time - self.last_sample_time
        } else {
            0
        };

        if run_time_ms >= 1000 {
            if elapsed_time_since_last_sample >= 1000 {
                let bitrate: u64 = if self.total_bits_sample > 0 {
                    self.total_bits_sample.wrapping_mul(1000) / elapsed_time_since_last_sample
                } else {
                    0
                };

                if self.count > 0 {
                    self.bitrate_avg = (self.total_bits.wrapping_mul(1000) / run_time_ms) as u32;
                } else {
                    self.bitrate_avg = bitrate as u32;
                }

                self.total_bits_sample = 0;
                self.last_sample_time = self.capture_time;
                self.bitrate = bitrate as u32;
            }

            if self.bitrate > self.bitrate_max {
                self.bitrate_max = self.bitrate;
            }
            if self.bitrate < self.bitrate_min || self.bitrate_min == 0 {
                self.bitrate_min = self.bitrate;
            }

            if self.count > 1 {
                let iat = if self.capture_time >= self.last_arrival_time {
                    self.capture_time - self.last_arrival_time
                } else {
                    0
                };
                self.iat = iat;

                if run_time_ms >= 60000 && self.count > 100 {
                    if iat > self.iat_max {
                        self.iat_max = iat;
                    }
                    if iat < self.iat_min {
                        self.iat_min = iat;
                    }
                } else {
                    if (self.iat_min > iat) || (self.count == 1) {
                        self.iat_min = iat;
                    }
                    self.iat_max = 0;
                }

                self.iat_avg = self.iat_avg.wrapping_mul(self.count as u64).wrapping_add(iat) / (
                self.count as u64 + 1);
            }
            self.last_arrival_time = self.capture_time;

            self.count = self.count.wrapping_add(1);
        }
    }

    /// Records a capture inter-arrival time: it becomes the stream's
    /// `capture_iat`, enters the rolling window of the last
    /// `IAT_CAPTURE_WINDOW_SIZE` samples, and `capture_iat_max` becomes the
    /// largest sample in that window.
    pub fn update_capture_iat(&mut self, capture_iat: u64, window: &mut IatCaptureWindow)
        requires
            old(window).wf(),
        ensures
            final(window).wf(),
            final(window)@ == window_after(old(window)@, capture_iat),
            final(self)@ == (StreamDataView {
                capture_iat,
                capture_iat_max: seq_max(final(window)@),
                ..old(self)@
            }),
    {
        self.capture_iat = capture_iat;

        window.push(capture_iat);

        let peak_iat = window.max_sample();
        window.peak = peak_iat;

        if peak_iat > self.capture_iat_max {
            self.capture_iat_max = peak_iat;
        } else if peak_iat < self.capture_iat_max {
            self.capture_iat_max = peak_iat;
        }

        if window.samples.len() == IAT_CAPTURE_WINDOW_SIZE
            && window.samples[0] == self.capture_iat_max
        {
            self.capture_iat_max = window.max_sample();
        }
    }

    /// Sets the program number.
    pub fn update_program_number(&mut self, program_number: u16)
        ensures
            final(self)@ == (StreamDataView { program_number, ..old(self)@ }),
    {
        self.program_number = program_number;
    }
}

/// The record after `set_continuity_counter(cc)`.
pub open spec fn continuity_after(s: StreamDataView, cc: u8) -> StreamDataView {
    let prev = s.continuity_counter;
    let masked = cc & 0x0F;
    if masked != prev.wrapping_add(1) & 0x0F && masked != prev {
        let jump: u8 = if masked < prev {
            ((masked + 16) as u8).wrapping_sub(prev)
        } else {
            (masked - prev) as u8
        };
        StreamDataView {
            continuity_counter: cc,
            error_count: s.error_count.wrapping_add(1),
            current_error_count: jump as u32,
            ..s
        }
    } else {
        StreamDataView { continuity_counter: cc, current_error_count: 0, ..s }
    }
}

/// The record after `update_stats(packet_size)`; counters wrap at the
/// width of their fields.
pub open spec fn stats_after(s: StreamDataView, packet_size: usize) -> StreamDataView {
    let bits = (packet_size as u64).wrapping_mul(8);
    let total_bits = s.total_bits.wrapping_add(bits);
    let total_bits_sample = s.total_bits_sample.wrapping_add(bits);
    let run_time = sat_sub(s.capture_time, s.start_time);
    let since_sample = sat_sub(s.capture_time, s.last_sample_time);
    if run_time < 1000 {
        StreamDataView { total_bits, total_bits_sample, ..s }
    } else {
        let sampled = since_sample >= 1000;
        let sample_rate: u64 = if total_bits_sample > 0 {
            total_bits_sample.wrapping_mul(1000) / since_sample
        } else {
            0
        };
        let bitrate: u32 = if sampled { sample_rate as u32 } else { s.bitrate };
        let bitrate_avg: u32 = if !sampled {
            s.bitrate_avg
        } else if s.count > 0 {
            (total_bits.wrapping_mul(1000) / run_time) as u32
        } else {
            sample_rate as u32
        };
        let bitrate_max = if bitrate > s.bitrate_max { bitrate } else { s.bitrate_max };
        let bitrate_min = if bitrate < s.bitrate_min || s.bitrate_min == 0 {
            bitrate
        } else {
            s.bitrate_min
        };
        let iat = sat_sub(s.capture_time, s.last_arrival_time);
        let settled = run_time >= 60000 && s.count > 100;
        let iat_max: u64 = if s.count <= 1 {
            s.iat_max
        } else if settled {
            if iat > s.iat_max { iat } else { s.iat_max }
        } else {
            0
        };
        let iat_min: u64 = if s.count <= 1 {
            s.iat_min
        } else if settled {
            if iat < s.iat_min { iat } else { s.iat_min }
        } else {
            if s.iat_min > iat || s.count == 1 { iat } else { s.iat_min }
        };
        let iat_avg: u64 = if s.count <= 1 {
            s.iat_avg
        } else {
            s.iat_avg.wrapping_mul(s.count as u64).wrapping_add(iat) / ((s.count as u64 + 1) as u64)
        };
        StreamDataView {
            total_bits,
            total_bits_sample: if sampled { 0 } else { total_bits_sample },
            last_sample_time: if sampled { s.capture_time } else { s.last_sample_time },
            bitrate,
            bitrate_avg,
            bitrate_max,
            bitrate_min,
            iat: if s.count <= 1 { s.iat } else { iat },
            iat_max,
            iat_min,
            iat_avg,
            last_arrival_time: s.capture_time,
            count: s.count.wrapping_add(1),
            ..s
        }
    }
}

/// The rolling window of the most recent capture inter-arrival times, with
/// the largest of them.
pub struct IatCaptureWindow {
    samples: VecDeque<u64>,
    peak: u64,
}

impl View for IatCaptureWindow {
    type V = Seq<u64>;

    closed spec fn view(&self) -> Seq<u64> {
        self.samples@
    }
}

/// The largest value of `s`, 0 for an empty sequence.
pub open spec fn seq_max(s: Seq<u64>) -> u64
    decreases s.len(),
{
    if s.len() == 0 {
        0
    } else {
        let m = seq_max(s.drop_last());
        if s.last() > m { s.last() } else { m }
    }
}

/// The window after `iat` is recorded: appended, and the oldest sample
/// dropped once the window would exceed its size.
pub open spec fn window_after(w: Seq<u64>, iat: u64) -> Seq<u64> {
    let p = w.push(iat);
    if p.len() > IAT_CAPTURE_WINDOW_SIZE {
        p.drop_first()
    } else {
        p
    }
}

impl IatCaptureWindow {
    /// The window holds at most `IAT_CAPTURE_WINDOW_SIZE` samples, and its
    /// recorded peak is their maximum.
    pub open spec fn wf(&self) -> bool {
        &&& self@.len() <= IAT_CAPTURE_WINDOW_SIZE
        &&& self.recorded_peak() == seq_max(self@)
    }

    /// An empty window.
    pub fn new() -> (r: Self)
        ensures
            r.wf(),
            r@ == Seq::<u64>::empty(),
            r.recorded_peak() == 0,
    {
        IatCaptureWindow { samples: VecDeque::with_capacity(IAT_CAPTURE_WINDOW_SIZE), peak: 0 }
    }

    /// The peak recorded by the last `update_capture_iat`.
    pub closed spec fn recorded_peak(&self) -> u64 {
        self.peak
    }

    /// The peak recorded by the last `update_capture_iat`.
    pub fn peak(&self) -> (r: u64)
        ensures
            r == self.recorded_peak(),
    {
        self.peak
    }

    /// The number of samples held.
    pub fn len(&self) -> (r: usize)
        ensures
            r == self@.len(),
    {
        self.samples.len()
    }

    /// The sample at `i`, oldest first.
    pub fn sample(&self, i: usize) -> (r: u64)
        requires
            i < self@.len(),
        ensures
            r == self@[i as int],
    {
        self.samples[i]
    }

    fn push(&mut self, iat: u64)
        requires
            old(self)@.len() <= IAT_CAPTURE_WINDOW_SIZE,
        ensures
            final(self)@.len() <= IAT_CAPTURE_WINDOW_SIZE,
            final(self)@ == window_after(old(self)@, iat),
            final(self).recorded_peak() == old(self).recorded_peak(),
    {
        self.samples.push_back(iat);
        if self.samples.len() > IAT_CAPTURE_WINDOW_SIZE {
            let _ = self.samples.pop_front();
        }
    }

    /// The largest sample in the window, 0 when it is empty.
    pub fn max_sample(&self) -> (r: u64)
        ensures
            r == seq_max(self@),
    {
        let mut m: u64 = 0;
        let mut i: usize = 0;
        let n = self.samples.len();
        while i < n
            invariant
                n == self@.len(),
                i <= n,
                m == seq_max(self@.take(i as int)),
            decreases n - i,
        {
            assert(self@.take(i + 1).drop_last() =~= self@.take(i as int));
            let v = self.samples[i];
            if v > m {
                m = v;
            }
            i = i + 1;
        }
        assert(self@.take(n as int) =~= self@);
        m
    }
}

// ---------------------------------------------------------------------------
// Laws
// ---------------------------------------------------------------------------

/// A continuity counter that repeats the previous one, or follows it
/// modulo 16, is no error: the error total stays and the current error
/// count is reset.
pub proof fn lemma_continuity_in_order(s: StreamDataView, cc: u8)
    requires
        (cc & 0x0F) == (s.continuity_counter.wrapping_add(1) & 0x0F) || (cc & 0x0F)
            == s.continuity_counter,
    ensures
        continuity_after(s, cc).error_count == s.error_count,
        continuity_after(s, cc).current_error_count == 0,
        continuity_after(s, cc).continuity_counter == cc,
{
}

/// Any other counter (after a previous counter in 0..=15) is one error
/// more, and the current error count is the size of the jump, modulo 16,
/// which lies in 2..=15.
pub proof fn lemma_continuity_jump(s: StreamDataView, cc: u8)
    requires
        s.continuity_counter <= 15,
        (cc & 0x0F) != (s.continuity_counter.wrapping_add(1) & 0x0F),
        (cc & 0x0F) != s.continuity_counter,
    ensures
        continuity_after(s, cc).error_count == s.error_count.wrapping_add(1),
        2 <= continuity_after(s, cc).current_error_count <= 15,
        continuity_after(s, cc).current_error_count == ((cc & 0x0F) - s.continuity_counter + 16)
            % 16,
        continuity_after(s, cc).continuity_counter == cc,
{
    let prev = s.continuity_counter;
    assert((cc & 0x0F) <= 15) by (bit_vector);
    assert(prev <= 15 ==> prev.wrapping_add(1) & 0x0F == (prev + 1) % 16) by (bit_vector);
}

/// `seq_max` is an upper bound of the sequence and, unless the sequence is
/// empty, one of its elements.
pub proof fn lemma_seq_max(s: Seq<u64>)
    ensures
        forall|i: int| 0 <= i < s.len() ==> s[i] <= seq_max(s),
        s.len() > 0 ==> s.contains(seq_max(s)),
    decreases s.len(),
{
    if s.len() > 0 {
        lemma_seq_max(s.drop_last());
        assert forall|i: int| 0 <= i < s.len() implies s[i] <= seq_max(s) by {
            if i < s.len() - 1 {
                assert(s[i] == s.drop_last()[i]);
            }
        }
        if s.last() > seq_max(s.drop_last()) || s.drop_last().len() == 0 {
            assert(s[s.len() - 1] == s.last());
        } else {
            let j = choose|j: int| 0 <= j < s.drop_last().len() && s.drop_last()[j] == seq_max(
                s.drop_last(),
            );
            assert(s[j] == s.drop_last()[j]);
        }
    }
}

/// Recording an inter-arrival time keeps the window within its size,
/// makes the new sample the newest, and keeps the newest older samples in
/// order: the window is the last (at most) `IAT_CAPTURE_WINDOW_SIZE`
/// samples.
pub proof fn lemma_window_after(w: Seq<u64>, iat: u64)
    requires
        w.len() <= IAT_CAPTURE_WINDOW_SIZE,
    ensures
        window_after(w, iat).len() <= IAT_CAPTURE_WINDOW_SIZE,
        window_after(w, iat).len() == if w.len() < IAT_CAPTURE_WINDOW_SIZE {
            w.len() + 1int
        } else {
            IAT_CAPTURE_WINDOW_SIZE as int
        },
        window_after(w, iat).last() == iat,
        window_after(w, iat) =~= w.push(iat).subrange(
            w.push(iat).len() - window_after(w, iat).len(),
            w.push(iat).len() as int,
        ),
{
}

/// The window after the inter-arrival times `vs` are recorded in order,
/// starting from window `w`.
pub open spec fn window_after_all(w: Seq<u64>, vs: Seq<u64>) -> Seq<u64>
    decreases vs.len(),
{
    if vs.len() == 0 {
        w
    } else {
        window_after(window_after_all(w, vs.drop_last()), vs.last())
    }
}

/// The last (at most) `IAT_CAPTURE_WINDOW_SIZE` values of `vs`, in order.
pub open spec fn last_samples(vs: Seq<u64>) -> Seq<u64> {
    if vs.len() <= IAT_CAPTURE_WINDOW_SIZE {
        vs
    } else {
        vs.subrange(vs.len() - IAT_CAPTURE_WINDOW_SIZE, vs.len() as int)
    }
}

/// Recording one more value keeps the window the last samples.
proof fn lemma_last_samples_push(u: Seq<u64>, x: u64)
    ensures
        window_after(last_samples(u), x) == last_samples(u.push(x)),
{
    assert(window_after(last_samples(u), x) =~= last_samples(u.push(x)));
}

/// Over any run of `update_capture_iat` calls that share a window (on any
/// stream records), the window holds the last (at most)
/// `IAT_CAPTURE_WINDOW_SIZE` of all values recorded, in call order; the
/// record of the last call has that value as `capture_iat` and the largest
/// value of the window as `capture_iat_max` (a rolling peak, which drops
/// once its sample leaves the window).
pub proof fn lemma_window_run(w: Seq<u64>, vs: Seq<u64>, s: StreamDataView)
    requires
        w.len() <= IAT_CAPTURE_WINDOW_SIZE,
    ensures
        window_after_all(w, vs) == last_samples(w + vs),
        vs.len() > 0 ==> {
            let before = window_after_all(w, vs.drop_last());
            let r = StreamDataView {
                capture_iat: vs.last(),
                capture_iat_max: seq_max(window_after(before, vs.last())),
                ..s
            };
            &&& r.capture_iat == vs.last()
            &&& r.capture_iat_max == seq_max(last_samples(w + vs))
            &&& forall|i: int|
                0 <= i < last_samples(w + vs).len() ==> #[trigger] last_samples(w + vs)[i]
                    <= r.capture_iat_max
            &&& exists|i: int|
                0 <= i < last_samples(w + vs).len() && #[trigger] last_samples(w + vs)[i]
                    == r.capture_iat_max
        },
    decreases vs.len(),
{
    if vs.len() == 0 {
        assert(w + vs =~= w);
    } else {
        lemma_window_run(w, vs.drop_last(), s);
        assert(w + vs =~= (w + vs.drop_last()).push(vs.last()));
        lemma_last_samples_push(w + vs.drop_last(), vs.last());
        lemma_seq_max(last_samples(w + vs));
    }
}

/// Once a stream has run a minute and seen more than 100 packets,
/// `iat_max` is a running maximum: after `update_stats` it is the larger of
/// the previous `iat_max` and the new inter-arrival time (capture time minus
/// last arrival time, 0 when negative), which becomes `iat`.
pub proof fn lemma_stats_iat_max_running(s: StreamDataView, packet_size: usize)
    requires
        s.capture_time >= s.start_time + 60000,
        s.count > 100,
    ensures
        ({
            let r = stats_after(s, packet_size);
            let iat: u64 = if s.capture_time >= s.last_arrival_time {
                (s.capture_time - s.last_arrival_time) as u64
            } else {
                0
            };
            &&& r.iat == iat
            &&& r.iat_max >= iat
            &&& r.iat_max >= s.iat_max
            &&& (r.iat_max == iat || r.iat_max == s.iat_max)
        }),
{
}

/// After `update_stats` past the first second of a stream, the bitrate
/// lies between its recorded minimum and maximum.
pub proof fn lemma_stats_bitrate_bounds(s: StreamDataView, packet_size: usize)
    requires
        sat_sub(s.capture_time, s.start_time) >= 1000,
    ensures
        stats_after(s, packet_size).bitrate <= stats_after(s, packet_size).bitrate_max,
        stats_after(s, packet_size).bitrate_min <= stats_after(s, packet_size).bitrate,
{
}

/// During the first second of a stream `update_stats` only adds the
/// packet's bits to the totals; afterwards it also counts the packet and
/// takes the capture time as the last arrival time.
pub proof fn lemma_stats_counting(s: StreamDataView, packet_size: usize)
    ensures
        stats_after(s, packet_size).total_bits == s.total_bits.wrapping_add(
            (packet_size as u64).wrapping_mul(8),
        ),
        sat_sub(s.capture_time, s.start_time) < 1000 ==> stats_after(s, packet_size)
            == (StreamDataView {
            total_bits: stats_after(s, packet_size).total_bits,
            total_bits_sample: stats_after(s, packet_size).total_bits_sample,
            ..s
        }),
        sat_sub(s.capture_time, s.start_time) >= 1000 ==> {
            &&& stats_after(s, packet_size).count == s.count.wrapping_add(1)
            &&& stats_after(s, packet_size).last_arrival_time == s.capture_time
        },
{
}

/// Once a stream has seen more than one packet past its first second, the
/// smallest recorded inter-arrival time is at most the latest one.
pub proof fn lemma_stats_iat_min(s: StreamDataView, packet_size: usize)
    requires
        sat_sub(s.capture_time, s.start_time) >= 1000,
        s.count > 1,
    ensures
        stats_after(s, packet_size).iat_min <= stats_after(s, packet_size).iat,
{
}

} // verus!
