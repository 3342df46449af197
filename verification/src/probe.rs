use vstd::prelude::*;
use vstd::slice::slice_subrange;
use std::sync::Arc;
use crate::pid_map::{PidMap, pid_map_entries, pid_map_new};
use crate::psi::{
    first_video, identify_video_pid, parse_and_store_pat, pat_entries, pat_is_readable,
    pat_readable, pat_selection, pmt_is_readable, pmt_of, pmt_readable,
};
use crate::stream_data::{
    Codec, IatCaptureWindow, PAT_PID, PmtInfo, StreamData, StreamDataView, Tr101290Errors,
    packet_bytes, share_packet, zero_errors,
};
use crate::streams::{
    StreamOrigin, packet_is_processable, packet_of, packet_processable, pat_update,
    pid_map_update_is_readable, pid_map_update_readable, process_outcome, process_packet,
    stored_pat_entries, update_pid_map,
};

verus! {

// ---------------------------------------------------------------------------
// Capture settings
// ---------------------------------------------------------------------------

/// Capture and channel settings of the probe.
#[derive(Clone, Copy, Debug, PartialEq, Eq, Structural)]
pub struct CaptureSettings {
    pub immediate_mode: bool,
    pub buffer_size: i64,
    pub pcap_channel_size: usize,
    pub kafka_channel_size: usize,
    pub packet_size: usize,
    pub pcap_batch_size: usize,
}

/// The settings that SMPTE 2110 capture imposes: immediate mode, a 10 GB
/// capture buffer, channels of a million entries, RTP packets of 1220 bytes
/// read 3 at a time.
pub open spec fn smpte2110_settings() -> CaptureSettings {
    CaptureSettings {
        immediate_mode: true,
        buffer_size: 10_000_000_000,
        pcap_channel_size: 1_000_000,
        kafka_channel_size: 1_000_000,
        packet_size: 1_220,
        pcap_batch_size: 3,
    }
}

/// The settings in effect: those given, or the SMPTE 2110 ones when
/// `smpte2110` is set.
pub fn capture_settings(smpte2110: bool, given: CaptureSettings) -> (r: CaptureSettings)
    ensures
        r == if smpte2110 {
            smpte2110_settings()
        } else {
            given
        },
{
    if smpte2110 {
        CaptureSettings {
            immediate_mode: true,
            buffer_size: 10_000_000_000,
            pcap_channel_size: 1_000_000,
            kafka_channel_size: 1_000_000,
            packet_size: 1_220,
            pcap_batch_size: 3,
        }
    } else {
        given
    }
}

/// The pcap read size: a batch of packets plus the payload offset, in
/// 32-bit signed arithmetic that wraps.
pub fn pcap_read_size(packet_size: usize, pcap_batch_size: usize, payload_offset: usize) -> (r: i32)
    ensures
        r == (packet_size as i32).wrapping_mul(pcap_batch_size as i32).wrapping_add(
            payload_offset as i32,
        ),
{
    (packet_size as i32).wrapping_mul(pcap_batch_size as i32).wrapping_add(payload_offset as i32)
}

// ---------------------------------------------------------------------------
// Capture device
// ---------------------------------------------------------------------------

/// Whether a device named `name` is taken for a request of `wanted`: its
/// name is the one asked for, or none was asked for.
pub open spec fn device_matches(name: Seq<char>, wanted: Seq<char>) -> bool {
    name == wanted || wanted.len() == 0
}

/// The index of the capture device to open among devices named `names`:
/// the first that matches `wanted`, or `None` when none does.
pub fn select_device(names: &[String], wanted: &String) -> (r: Option<usize>)
    ensures
        match r {
            Some(i) => {
                &&& i < names@.len()
                &&& device_matches(names@[i as int]@, wanted@)
                &&& forall|j: int| 0 <= j < i ==> !device_matches(#[trigger] names@[j]@, wanted@)
            },
            None => forall|j: int|
                0 <= j < names@.len() ==> !device_matches(#[trigger] names@[j]@, wanted@),
        },
{
    let any = wanted.as_str().unicode_len() == 0;
    let mut i: usize = 0;
    while i < names.len()
        invariant
            i <= names@.len(),
            any == (wanted@.len() == 0),
            forall|j: int| 0 <= j < i ==> !device_matches(#[trigger] names@[j]@, wanted@),
        decreases names.len() - i,
    {
        if any || names[i] == *wanted {
            return Some(i);
        }
        i += 1;
    }
    None
}

/// The first IPv4 address among a device's addresses (`None` standing for
/// an address of another family).
pub fn first_ipv4(addresses: &[Option<[u8; 4]>]) -> (r: Option<[u8; 4]>)
    ensures
        match r {
            Some(a) => exists|i: int|
                0 <= i < addresses@.len() && addresses@[i] == Some(a) && forall|j: int|
                    0 <= j < i ==> #[trigger] addresses@[j] is None,
            None => forall|j: int| 0 <= j < addresses@.len() ==> #[trigger] addresses@[j] is None,
        },
{
    let mut i: usize = 0;
    while i < addresses.len()
        invariant
            i <= addresses@.len(),
            forall|j: int| 0 <= j < i ==> #[trigger] addresses@[j] is None,
        decreases addresses.len() - i,
    {
        if let Some(a) = addresses[i] {
            assert(addresses@[i as int] == Some(a));
            return Some(a);
        }
        i += 1;
    }
    None
}

// ---------------------------------------------------------------------------
// Video stream tracking
// ---------------------------------------------------------------------------

/// The video stream the probe follows: its PID, codec and stream type.
#[derive(Clone, Copy, Debug, PartialEq, Eq, Structural)]
pub struct VideoTracker {
    pub video_pid: Option<u16>,
    pub video_codec: Option<Codec>,
    pub video_stream_type: u8,
}

impl VideoTracker {
    /// No video stream known yet: PID 0xFFFF, codec NONE, stream type 0.
    pub fn new() -> (r: Self)
        ensures
            r == initial_tracker(),
    {
        VideoTracker { video_pid: Some(0xFFFF), video_codec: Some(Codec::NONE), video_stream_type: 0 }
    }

    /// Takes in the video stream a PMT announces (`found`), seen in a packet
    /// whose stream type number is `stream_type_number`. Returns whether the
    /// video stream changed, so that frames gathered so far are dropped.
    pub fn on_pmt(&mut self, found: Option<(u16, Codec)>, stream_type_number: u8) -> (cleared: bool)
        ensures
            (*final(self), cleared) == tracker_after_pmt(*old(self), found, stream_type_number),
    {
        match found {
            None => false,
            Some((new_pid, new_codec)) => {
                let pid_changed = match self.video_pid {
                    None => true,
                    Some(vp) => vp != new_pid,
                };
                if stream_type_number > 0 && pid_changed {
                    self.video_pid = Some(new_pid);
                    self.video_stream_type = stream_type_number;
                    self.video_codec = Some(new_codec);
                    true
                } else {
                    let same_codec = match self.video_codec {
                        None => false,
                        Some(c) => c == new_codec,
                    };
                    if !same_codec {
                        self.video_codec = Some(new_codec);
                        true
                    } else {
                        false
                    }
                }
            },
        }
    }

    /// Takes in a packet of `pid` with stream type number
    /// `stream_type_number`. Returns whether the followed stream type
    /// changed.
    pub fn on_stream_packet(&mut self, pid: u16, stream_type_number: u8) -> (changed: bool)
        ensures
            (*final(self), changed) == tracker_after_packet(*old(self), pid, stream_type_number),
    {
        match self.video_pid {
            Some(vp) => {
                if vp < 0x1FFF && vp > 0 && pid == vp && self.video_stream_type != stream_type_number {
                    self.video_stream_type = stream_type_number;
                    true
                } else {
                    false
                }
            },
            None => false,
        }
    }
}

/// The tracker before any video stream is known: PID 0xFFFF, codec NONE,
/// stream type 0.
pub open spec fn initial_tracker() -> VideoTracker {
    VideoTracker { video_pid: Some(0xFFFF), video_codec: Some(Codec::NONE), video_stream_type: 0 }
}

/// The tracker after a PMT announces the video stream `found` in a packet of
/// stream type number `stn`, and whether the video stream changed. A new
/// PID is followed when the packet's stream type is known; otherwise a new
/// codec for the followed PID is taken.
pub open spec fn tracker_after_pmt(t: VideoTracker, found: Option<(u16, Codec)>, stn: u8) -> (
    VideoTracker,
    bool,
) {
    match found {
        None => (t, false),
        Some((new_pid, new_codec)) => if stn > 0 && t.video_pid != Some(new_pid) {
            (
                VideoTracker {
                    video_pid: Some(new_pid),
                    video_codec: Some(new_codec),
                    video_stream_type: stn,
                },
                true,
            )
        } else if t.video_codec != Some(new_codec) {
            (VideoTracker { video_codec: Some(new_codec), ..t }, true)
        } else {
            (t, false)
        },
    }
}

/// The tracker after a packet of `pid` with stream type number `stn`, and
/// whether it changed: when the packet belongs to the followed video PID (a
/// real one, in 1..0x1FFF) and its stream type differs, that type is taken.
pub open spec fn tracker_after_packet(t: VideoTracker, pid: u16, stn: u8) -> (VideoTracker, bool) {
    if t.video_pid matches Some(vp) && 0 < vp < 0x1FFF && pid == vp && t.video_stream_type != stn {
        (VideoTracker { video_stream_type: stn, ..t }, true)
    } else {
        (t, false)
    }
}

// ---------------------------------------------------------------------------
// Processing one stream record
// ---------------------------------------------------------------------------

/// What the probe keeps from one stream record to the next: the TR 101 290
/// counters, the PMT found in the last PAT, the followed video stream, the
/// PID map and the window of capture inter-arrival times.
pub struct ProbeState {
    pub errors: Tr101290Errors,
    pub pmt_info: PmtInfo,
    pub video: VideoTracker,
    pub pid_map: PidMap,
    pub window: IatCaptureWindow,
}

/// The abstract content of `ProbeState`.
pub struct ProbeStateView {
    pub errors: Tr101290Errors,
    pub pmt_pid: u16,
    pub pmt_packet: Seq<u8>,
    pub program_number: u16,
    pub video: VideoTracker,
    pub pid_map: Map<u16, StreamDataView>,
    pub window: Seq<u64>,
}

impl View for ProbeState {
    type V = ProbeStateView;

    open spec fn view(&self) -> ProbeStateView {
        ProbeStateView {
            errors: self.errors,
            pmt_pid: self.pmt_info.pid,
            pmt_packet: self.pmt_info.packet@,
            program_number: self.pmt_info.program_number,
            video: self.video,
            pid_map: pid_map_entries(self.pid_map),
            window: self.window@,
        }
    }
}

impl ProbeState {
    /// The window of inter-arrival times is well formed.
    pub open spec fn wf(&self) -> bool {
        self.window.wf()
    }

    /// The state before any packet: no errors, no PMT (PID 0xFFFF), no
    /// video stream, an empty PID map and window.
    pub fn new() -> (r: Self)
        ensures
            r.wf(),
            r@ == (ProbeStateView {
                errors: zero_errors(),
                pmt_pid: 0xFFFF,
                pmt_packet: Seq::empty(),
                program_number: 0,
                video: initial_tracker(),
                pid_map: Map::empty(),
                window: Seq::empty(),
            }),
    {
        ProbeState {
            errors: Tr101290Errors::new(),
            pmt_info: PmtInfo { pid: 0xFFFF, packet: Vec::new(), program_number: 0 },
            video: VideoTracker::new(),
            pid_map: pid_map_new(),
            window: IatCaptureWindow::new(),
        }
    }
}

/// What processing one record reports: whether it was a PAT (after which
/// the error counters are shown on request), and whether the followed video
/// stream changed.
#[derive(Clone, Copy, Debug, PartialEq, Eq, Structural)]
pub struct StepReport {
    pub pat_seen: bool,
    pub video_changed: bool,
}

/// Whether a record of transport stream (`is_mpegts`) is a PAT.
pub open spec fn is_pat_record(sd: StreamDataView, is_mpegts: bool) -> bool {
    is_mpegts && sd.pid == PAT_PID
}

/// Whether a record of transport stream is the PMT the last PAT announced.
pub open spec fn is_pmt_record(s: ProbeStateView, sd: StreamDataView, is_mpegts: bool) -> bool {
    is_mpegts && sd.pid != PAT_PID && sd.pid == s.pmt_pid
}

/// What processing a record needs: its packet can be processed, a PAT can
/// be parsed, and a PMT can be parsed and applied to the stored PAT.
pub open spec fn step_readable(s: ProbeStateView, sd: StreamDataView, is_mpegts: bool) -> bool {
    &&& packet_processable(sd)
    &&& is_pat_record(sd, is_mpegts) ==> pat_readable(packet_of(sd))
    &&& is_pmt_record(s, sd, is_mpegts) ==> pid_map_update_readable(packet_of(sd), s.pmt_packet)
        && pmt_readable(packet_of(sd))
}

/// The state, record and report after the record `sd` is processed, where
/// streams that a PMT adds are stamped with time `ts`: a PAT replaces the
/// stored PMT; a PMT updates the PID map and the followed video stream; the
/// record's stream type is taken for the followed video PID; then the
/// packet goes through the TR 101 290 checks and into the PID map.
pub open spec fn step_result(
    s: ProbeStateView,
    sd: StreamDataView,
    is_mpegts: bool,
    source_ip: Seq<char>,
    source_port: i32,
    probe_id: Seq<char>,
    ts: u64,
) -> (ProbeStateView, StreamDataView, StepReport) {
    let chunk = packet_of(sd);
    let is_pat = is_pat_record(sd, is_mpegts);
    let is_pmt = is_pmt_record(s, sd, is_mpegts);
    let sel = pat_selection(pat_entries(chunk));
    let s1 = if is_pat {
        ProbeStateView { pmt_pid: sel.0, pmt_packet: chunk, program_number: sel.1, ..s }
    } else {
        s
    };
    let origin = StreamOrigin {
        timestamp: ts,
        capture_timestamp: sd.capture_time,
        capture_iat: sd.capture_iat,
        source_ip,
        source_port,
        probe_id,
    };
    let (m1, w1) = if is_pmt {
        pat_update(
            s.pid_map,
            s.window,
            stored_pat_entries(s.pmt_packet),
            pmt_of(chunk).entries,
            chunk.len() as usize,
            origin,
        )
    } else {
        (s.pid_map, s.window)
    };
    let (v1, changed) = if is_pmt {
        tracker_after_pmt(s.video, first_video(pmt_of(chunk).entries), sd.stream_type_number)
    } else {
        (s.video, false)
    };
    let v2 = tracker_after_packet(v1, sd.pid, sd.stream_type_number).0;
    let (e2, sd2, m2, w2) = process_outcome(s.errors, sd, s1.pmt_pid, probe_id, m1, w1);
    (
        ProbeStateView { errors: e2, video: v2, pid_map: m2, window: w2, ..s1 },
        sd2,
        StepReport { pat_seen: is_pat, video_changed: changed },
    )
}

/// Tells whether `handle_stream_data` can process the record `sd` in state
/// `state`.
pub fn step_is_readable(state: &ProbeState, sd: &StreamData, is_mpegts: bool) -> (r: bool)
    ensures
        r == step_readable(state@, sd@, is_mpegts),
{
    if !packet_is_processable(sd) {
        return false;
    }
    let bytes = packet_bytes(&sd.packet);
    let _len = bytes.len();
    let chunk = slice_subrange(bytes, sd.packet_start, sd.packet_start + sd.packet_len);
    if is_mpegts && sd.pid == PAT_PID {
        pat_is_readable(chunk)
    } else if is_mpegts && sd.pid == state.pmt_info.pid {
        pid_map_update_is_readable(chunk, state.pmt_info.packet.as_slice()) && pmt_is_readable(
            chunk,
        )
    } else {
        true
    }
}

/// Processes one stream record of the probe: a PAT is parsed and stored; the
/// PMT it announces updates the PID map (new streams stamped with the
/// current time) and the followed video stream; then the record's packet is
/// checked and folded into the PID map, and the record handed back updated.
pub fn handle_stream_data(
    state: &mut ProbeState,
    sd: &mut StreamData,
    is_mpegts: bool,
    source_ip: &String,
    source_port: i32,
    probe_id: &String,
) -> (r: StepReport)
    requires
        old(state).wf(),
        step_readable(old(state)@, old(sd)@, is_mpegts),
    ensures
        final(state).wf(),
        exists|ts: u64|
            (final(state)@, final(sd)@, r) == step_result(
                old(state)@,
                old(sd)@,
                is_mpegts,
                source_ip@,
                source_port,
                probe_id@,
                ts,
            ),
{
    let ghost s0 = state@;
    let ghost sd0 = sd@;
    let mut report = StepReport { pat_seen: false, video_changed: false };
    let ghost mut ts: u64 = 0;
    let shared = share_packet(&sd.packet);
    let bytes = packet_bytes(&shared);
    let _len = bytes.len();
    let chunk = slice_subrange(bytes, sd.packet_start, sd.packet_start + sd.packet_len);
    assert(chunk@ == packet_of(sd0));
    if is_mpegts && sd.pid == PAT_PID {
        state.pmt_info = parse_and_store_pat(chunk);
        report.pat_seen = true;
    } else if is_mpegts && sd.pid == state.pmt_info.pid {
        update_pid_map(
            chunk,
            state.pmt_info.packet.as_slice(),
            sd.capture_time,
            sd.capture_iat,
            source_ip.clone(),
            source_port,
            probe_id.clone(),
            &mut state.pid_map,
            &mut state.window,
        );
        proof {
            ts = choose|t: u64|
                (pid_map_entries(state.pid_map), state.window@) == pat_update(
                    s0.pid_map,
                    s0.window,
                    stored_pat_entries(s0.pmt_packet),
                    pmt_of(chunk@).entries,
                    chunk@.len() as usize,
                    StreamOrigin {
                        timestamp: t,
                        capture_timestamp: sd0.capture_time,
                        capture_iat: sd0.capture_iat,
                        source_ip: source_ip@,
                        source_port,
                        probe_id: probe_id@,
                    },
                );
        }
        let found = identify_video_pid(chunk);
        report.video_changed = state.video.on_pmt(found, sd.stream_type_number);
    }
    state.video.on_stream_packet(sd.pid, sd.stream_type_number);
    let pmt_pid = state.pmt_info.pid;
    process_packet(
        sd,
        &mut state.errors,
        pmt_pid,
        probe_id.clone(),
        &mut state.pid_map,
        &mut state.window,
    );
    assert((state@, sd@, report) == step_result(
        s0,
        sd0,
        is_mpegts,
        source_ip@,
        source_port,
        probe_id@,
        ts,
    ));
    report
}

/// A PAT record makes the PMT its last program announces the one the probe
/// follows: the state keeps the PAT packet and that PMT PID, and a later
/// transport-stream record of that PID (other than the PAT PID) is handled
/// as the PMT. Records that are neither PAT nor PMT leave the stored PAT
/// and PMT PID as they were.
pub proof fn lemma_pat_selects_pmt(
    s: ProbeStateView,
    sd: StreamDataView,
    is_mpegts: bool,
    source_ip: Seq<char>,
    source_port: i32,
    probe_id: Seq<char>,
    ts: u64,
    next: StreamDataView,
)
    ensures
        ({
            let (s1, _, report) = step_result(s, sd, is_mpegts, source_ip, source_port, probe_id, ts);
            &&& report.pat_seen == is_pat_record(sd, is_mpegts)
            &&& is_pat_record(sd, is_mpegts) ==> {
                &&& s1.pmt_packet == packet_of(sd)
                &&& s1.pmt_pid == pat_selection(pat_entries(packet_of(sd))).0
                &&& (next.pid == s1.pmt_pid && next.pid != PAT_PID ==> is_pmt_record(
                    s1,
                    next,
                    true,
                ))
            }
            &&& !is_pat_record(sd, is_mpegts) ==> s1.pmt_packet == s.pmt_packet && s1.pmt_pid
                == s.pmt_pid && s1.program_number == s.program_number
        }),
{
}

// ---------------------------------------------------------------------------
// Capture and batching decisions
// ---------------------------------------------------------------------------

/// The inter-arrival time of a packet captured at `timestamp_ms` after one
/// captured at `last_ms` (0 before the first packet): 0 for the first
/// packet, else the difference, in 64-bit arithmetic that wraps.
pub fn capture_interarrival(last_ms: u64, timestamp_ms: u64) -> (r: u64)
    ensures
        r == if last_ms == 0 {
            0
        } else {
            timestamp_ms.wrapping_sub(last_ms)
        },
{
    if last_ms == 0 {
        0
    } else {
        timestamp_ms.wrapping_sub(last_ms)
    }
}

/// Whether capture must stop before taking another packet: a packet limit
/// is set and that many packets were taken already.
pub fn packet_limit_reached(packet_count: u64, packets_captured: u64) -> (r: bool)
    ensures
        r == (packet_count > 0 && packets_captured >= packet_count),
{
    packet_count > 0 && packets_captured >= packet_count
}

/// Whether a batch of processed records goes out: it is full, or its time
/// is up.
pub fn batch_due(batch_len: usize, batch_size: usize, timed_out: bool) -> (r: bool)
    ensures
        r == (batch_len >= batch_size || timed_out),
{
    batch_len >= batch_size || timed_out
}

/// Lets go of the packet a record refers to, when it has one, so that its
/// buffer can be freed: the record then refers to no bytes.
pub fn release_packet(sd: &mut StreamData)
    ensures
        final(sd)@ == if old(sd)@.packet_len > 0 {
            StreamDataView { packet: Seq::empty(), packet_len: 0, packet_start: 0, ..old(sd)@ }
        } else {
            old(sd)@
        },
{
    if sd.packet_len > 0 {
        sd.packet = Arc::new(Vec::new());
        sd.packet_len = 0;
        sd.packet_start = 0;
    }
}

} // verus!
