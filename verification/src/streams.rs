use vstd::prelude::*;
use crate::clock::current_unix_timestamp_ms;
use vstd::slice::slice_subrange;
use std::sync::Arc;
use crate::crc32::crc32_iso_hdlc;
use crate::pid_map::{
    PidMap, pid_map_clone, pid_map_contains, pid_map_entries, pid_map_get, pid_map_insert,
    pid_map_pids, pid_map_remove,
};
use crate::psi::{
    extract_pid, extract_timestamp, pat_is_readable, pmt_is_readable, timestamp_is_readable, pid_of, timestamp_of, timestamp_readable, parse_pat, parse_pmt, pat_entries, pat_readable, pmt_of, pmt_readable, stream_type_name,
    stream_type_name_of,
};
use crate::stream_data::{
    PatEntry, PmtEntry, PmtEntryView, TS_PACKET_SIZE, IatCaptureWindow, StreamData, StreamDataView, Tr101290Errors, continuity_after, new_stream_view,
    packet_bytes, sat_sub, seq_max, share_packet, stats_after, window_after,
};
use crate::tr101290::{
    p1_is_readable, p2_is_readable, crc_payload, p1_errors, p1_readable, p2_readable, p2_result, tr101290_p1_check,
    tr101290_p2_check,
};

verus! {

// ---------------------------------------------------------------------------
// Lookups
// ---------------------------------------------------------------------------

/// The stream type name recorded for `pid`, "unknown" when it has none.
pub open spec fn stream_type_for(m: Map<u16, StreamDataView>, pid: u16) -> Seq<char> {
    if m.dom().contains(pid) {
        m[pid].stream_type
    } else {
        "unknown"@
    }
}

/// The stream type recorded for `pid`, or "unknown".
pub fn determine_stream_type(pid_map: &PidMap, pid: u16) -> (r: String)
    ensures
        r@ == stream_type_for(pid_map_entries(*pid_map), pid),
{
    match pid_map_get(pid_map, pid) {
        Some(stream_data) => stream_data.stream_type.clone(),
        None => "unknown".to_owned(),
    }
}

/// The stream type number recorded for `pid`, 0 when it has none.
pub open spec fn stream_type_number_for(m: Map<u16, StreamDataView>, pid: u16) -> u8 {
    if m.dom().contains(pid) {
        m[pid].stream_type_number
    } else {
        0
    }
}

/// The stream type number recorded for `pid`, or 0.
pub fn determine_stream_type_number(pid_map: &PidMap, pid: u16) -> (r: u8)
    ensures
        r == stream_type_number_for(pid_map_entries(*pid_map), pid),
{
    match pid_map_get(pid_map, pid) {
        Some(stream_data) => stream_data.stream_type_number,
        None => 0,
    }
}

/// The program number recorded for `pid`, 0 when it has none.
pub open spec fn program_number_for(m: Map<u16, StreamDataView>, pid: u16) -> u16 {
    if m.dom().contains(pid) {
        m[pid].program_number
    } else {
        0
    }
}

/// The program number recorded for `pid`, or 0.
pub fn determine_stream_program_number(pid_map: &PidMap, pid: u16) -> (r: u16)
    ensures
        r == program_number_for(pid_map_entries(*pid_map), pid),
{
    match pid_map_get(pid_map, pid) {
        Some(stream_data) => stream_data.program_number,
        None => 0,
    }
}

/// A copy of the PID map.
pub fn get_pid_map(pid_map: &PidMap) -> (r: PidMap)
    ensures
        pid_map_entries(r) == pid_map_entries(*pid_map),
{
    pid_map_clone(pid_map)
}

// ---------------------------------------------------------------------------
// Stale streams
// ---------------------------------------------------------------------------

/// True when a stream was last seen more than `timeout` ms before `now`.
pub open spec fn is_stale(sd: StreamDataView, now: u64, timeout: u64) -> bool {
    sat_sub(now, sd.last_arrival_time) > timeout
}

/// The streams of `m` that are not stale at `now`.
pub open spec fn live_streams(m: Map<u16, StreamDataView>, now: u64, timeout: u64) -> Map<
    u16,
    StreamDataView,
> {
    Map::new(|pid: u16| m.dom().contains(pid) && !is_stale(m[pid], now, timeout), |pid: u16| m[pid])
}

/// Removes every stream last seen more than `clear_stream_timeout` ms
/// before `current_time`.
pub fn cleanup_stale_streams_at(pid_map: &mut PidMap, clear_stream_timeout: u64, current_time: u64)
    ensures
        pid_map_entries(*final(pid_map)) == live_streams(
            pid_map_entries(*old(pid_map)),
            current_time,
            clear_stream_timeout,
        ),
{
    let ghost m0 = pid_map_entries(*pid_map);
    let pids = pid_map_pids(pid_map);
    let mut stale_pids: Vec<u16> = Vec::new();
    let mut i: usize = 0;
    while i < pids.len()
        invariant
            i <= pids@.len(),
            pid_map_entries(*pid_map) == m0,
            forall|pid: u16| pids@.contains(pid) <==> m0.dom().contains(pid),
            forall|pid: u16|
                stale_pids@.contains(pid) ==> m0.dom().contains(pid) && is_stale(
                    m0[pid],
                    current_time,
                    clear_stream_timeout,
                ),
            forall|j: int|
                0 <= j < i && is_stale(m0[pids@[j]], current_time, clear_stream_timeout)
                    ==> stale_pids@.contains(#[trigger] pids@[j]),
        decreases pids.len() - i,
    {
        let pid = pids[i];
        assert(pids@.contains(pid));
        let stream_data = pid_map_get(pid_map, pid).unwrap();
        let age = if current_time >= stream_data.last_arrival_time {
            current_time - stream_data.last_arrival_time
        } else {
            0
        };
        let ghost before = stale_pids@;
        if age > clear_stream_timeout {
            stale_pids.push(pid);
            assert(stale_pids@[stale_pids@.len() - 1] == pid);
        }
        assert forall|j: int|
            0 <= j < i + 1 && is_stale(m0[pids@[j]], current_time, clear_stream_timeout)
                implies stale_pids@.contains(#[trigger] pids@[j]) by {
            if j < i {
                let q = pids@[j];
                assert(before.contains(q));
                let k = choose|k: int| 0 <= k < before.len() && before[k] == q;
                assert(stale_pids@[k] == q);
            }
        }
        assert forall|q: u16| stale_pids@.contains(q) implies m0.dom().contains(q) && is_stale(
            m0[q],
            current_time,
            clear_stream_timeout,
        ) by {
            let k = choose|k: int| 0 <= k < stale_pids@.len() && stale_pids@[k] == q;
            if k < before.len() {
                assert(before[k] == q);
            }
        }
        i += 1;
    }

    let ghost mut removed: Set<u16> = Set::empty();
    let mut k: usize = 0;
    while k < stale_pids.len()
        invariant
            k <= stale_pids@.len(),
            forall|pid: u16|
                stale_pids@.contains(pid) ==> m0.dom().contains(pid) && is_stale(
                    m0[pid],
                    current_time,
                    clear_stream_timeout,
                ),
            forall|pid: u16|
                removed.contains(pid) ==> m0.dom().contains(pid) && is_stale(
                    m0[pid],
                    current_time,
                    clear_stream_timeout,
                ),
            forall|j: int| 0 <= j < k ==> removed.contains(#[trigger] stale_pids@[j]),
            pid_map_entries(*pid_map) == m0.remove_keys(removed),
        decreases stale_pids.len() - k,
    {
        let pid = stale_pids[k];
        assert(stale_pids@.contains(pid));
        let _ = pid_map_remove(pid_map, pid);
        proof {
            removed = removed.insert(pid);
        }
        assert(pid_map_entries(*pid_map) =~= m0.remove_keys(removed));
        k += 1;
    }
    assert forall|pid: u16| m0.dom().contains(pid) && is_stale(m0[pid], current_time, clear_stream_timeout)
        implies removed.contains(pid) by {
        assert(pids@.contains(pid));
        let j = choose|j: int| 0 <= j < pids@.len() && pids@[j] == pid;
        assert(stale_pids@.contains(pids@[j]));
        let k2 = choose|k2: int| 0 <= k2 < stale_pids@.len() && stale_pids@[k2] == pid;
        assert(removed.contains(stale_pids@[k2]));
    }
    assert(pid_map_entries(*pid_map) =~= live_streams(m0, current_time, clear_stream_timeout));
}

/// Removes every stream last seen more than `clear_stream_timeout` ms
/// before now, by the system clock. When the clock reads earlier than 1970
/// no time can be taken: the map is left as it is and `false` comes back,
/// so that the caller can stop ("Time went backwards").
pub fn cleanup_stale_streams(pid_map: &mut PidMap, clear_stream_timeout: u64) -> (r: bool)
    ensures
        r ==> exists|now: u64|
            pid_map_entries(*final(pid_map)) == live_streams(
                pid_map_entries(*old(pid_map)),
                now,
                clear_stream_timeout,
            ),
        !r ==> pid_map_entries(*final(pid_map)) == pid_map_entries(*old(pid_map)),
{
    match current_unix_timestamp_ms() {
        Some(current_time) => {
            cleanup_stale_streams_at(pid_map, clear_stream_timeout, current_time);
            true
        },
        None => false,
    }
}

// ---------------------------------------------------------------------------
// Per-packet processing
// ---------------------------------------------------------------------------

/// The bytes of the transport-stream packet a record refers to.
pub open spec fn packet_of(sd: StreamDataView) -> Seq<u8> {
    sd.packet.subrange(sd.packet_start as int, sd.packet_start + sd.packet_len)
}

/// What `process_packet` needs of a record: its packet lies inside its
/// buffer, and, unless it is a null packet, the checks find the bytes they
/// read.
pub open spec fn packet_processable(sd: StreamDataView) -> bool {
    &&& sd.packet_start + sd.packet_len <= sd.packet.len()
    &&& sd.pid != 0x1FFF ==> p1_readable(packet_of(sd), sd.pid, sd) && p2_readable(packet_of(sd))
}

/// The record after an inter-arrival time is entered into window `w`.
pub open spec fn with_capture_iat(e: StreamDataView, iat: u64, w: Seq<u64>) -> StreamDataView {
    StreamDataView { capture_iat: iat, capture_iat_max: seq_max(window_after(w, iat)), ..e }
}

/// A stored stream record after a packet `sd` of its PID (of `len` bytes)
/// is accounted for, with window `w` before the packet.
pub open spec fn entry_after_packet(
    e: StreamDataView,
    sd: StreamDataView,
    len: usize,
    w: Seq<u64>,
    pmt_pid: u16,
) -> StreamDataView {
    let e1 = StreamDataView {
        capture_time: sd.capture_time,
        stream_type_number: sd.stream_type_number,
        ..e
    };
    let e2 = with_capture_iat(stats_after(e1, len), sd.capture_iat, w);
    let e3 = if e2.pid != 0x1FFF {
        continuity_after(e2, sd.continuity_counter)
    } else {
        e2
    };
    StreamDataView {
        timestamp: if sd.timestamp != 0 {
            sd.timestamp
        } else {
            e3.timestamp
        },
        pmt_pid,
        program_number: sd.program_number,
        pts: sd.pts,
        pcr: sd.pcr,
        ..e3
    }
}

/// The packet record after it takes over the statistics of stored record `e`.
pub open spec fn packet_after_entry(
    sd: StreamDataView,
    e: StreamDataView,
    pmt_pid: u16,
    probe_id: Seq<char>,
) -> StreamDataView {
    StreamDataView {
        bitrate: e.bitrate,
        bitrate_avg: e.bitrate_avg,
        bitrate_max: e.bitrate_max,
        bitrate_min: e.bitrate_min,
        iat: e.iat,
        iat_avg: e.iat_avg,
        iat_max: e.iat_max,
        iat_min: e.iat_min,
        stream_type: e.stream_type,
        start_time: e.start_time,
        last_arrival_time: e.last_arrival_time,
        last_sample_time: e.last_sample_time,
        total_bits_sample: e.total_bits_sample,
        total_bits: e.total_bits,
        count: e.count,
        pmt_pid,
        program_number: e.program_number,
        error_count: e.error_count,
        current_error_count: e.current_error_count,
        timestamp: if sd.timestamp == 0 {
            e.timestamp
        } else {
            sd.timestamp
        },
        probe_id,
        ..sd
    }
}

/// Tells whether `process_packet` can process the record `sd`.
pub fn packet_is_processable(sd: &StreamData) -> (r: bool)
    ensures
        r == packet_processable(sd@),
{
    let bytes = packet_bytes(&sd.packet);
    if sd.packet_start > bytes.len() || sd.packet_len > bytes.len() - sd.packet_start {
        return false;
    }
    if sd.pid == 0x1FFF {
        return true;
    }
    let packet = slice_subrange(bytes, sd.packet_start, sd.packet_start + sd.packet_len);
    p1_is_readable(packet, sd.pid, sd) && p2_is_readable(packet)
}

/// The record stored for a PID first seen in packet `sd` (of `len` bytes).
pub open spec fn first_entry_for_packet(
    sd: StreamDataView,
    len: usize,
    w: Seq<u64>,
    probe_id: Seq<char>,
) -> StreamDataView {
    let n = new_stream_view(
        Seq::empty(),
        0,
        0,
        sd.pid,
        sd.stream_type,
        sd.stream_type_number,
        sd.program_number,
        sd.start_time,
        sd.timestamp,
        sd.continuity_counter,
        sd.capture_time,
        sd.capture_iat,
        sd.source_ip,
        sd.source_port,
        probe_id,
    );
    let n1 = with_capture_iat(stats_after(n, len), sd.capture_iat, w);
    if sd.pid != 0x1FFF {
        continuity_after(n1, sd.continuity_counter)
    } else {
        n1
    }
}

/// What `process_packet` produces from the error counters `e`, the packet
/// record `sd`, the PMT PID, the probe id, the PID map `m` and the window
/// `w`: new counters, packet record, map and window.
pub open spec fn process_outcome(
    e: Tr101290Errors,
    sd: StreamDataView,
    pmt_pid: u16,
    probe_id: Seq<char>,
    m: Map<u16, StreamDataView>,
    w: Seq<u64>,
) -> (Tr101290Errors, StreamDataView, Map<u16, StreamDataView>, Seq<u64>) {
    let pkt = packet_of(sd);
    let pid = sd.pid;
    let checked = pid != 0x1FFF;
    let e1 = if checked {
        p1_errors(e, pkt, pid, sd, m.dom().contains(pid))
    } else {
        e
    };
    let (e2, s2) = if checked {
        p2_result(e1, pkt, sd, crc32_iso_hdlc(crc_payload(pkt)))
    } else {
        (e1, sd)
    };
    let sd1 = StreamDataView { pts: s2.pts, pcr: s2.pcr, ..sd };
    if m.dom().contains(pid) {
        let entry = entry_after_packet(m[pid], sd1, sd.packet_len, w, pmt_pid);
        (
            e2,
            packet_after_entry(sd1, entry, pmt_pid, probe_id),
            m.insert(pid, entry),
            window_after(w, sd.capture_iat),
        )
    } else if pmt_pid == 0xFFFF {
        (
            e2,
            sd1,
            m.insert(pid, first_entry_for_packet(sd1, sd.packet_len, w, probe_id)),
            window_after(w, sd.capture_iat),
        )
    } else {
        (e2, sd1, m, w)
    }
}

/// Processes one transport-stream packet record: runs the TR 101 290
/// checks (except on null packets), then folds the packet into the PID
/// map: an already known PID has its statistics, continuity and timing
/// updated and handed back in the packet record; an unknown PID is added
/// while no PMT has been seen (`pmt_pid == 0xFFFF`).
pub fn process_packet(
    stream_data_packet: &mut StreamData,
    errors: &mut Tr101290Errors,
    pmt_pid: u16,
    probe_id: String,
    pid_map: &mut PidMap,
    window: &mut IatCaptureWindow,
)
    requires
        packet_processable(old(stream_data_packet)@),
        old(window).wf(),
    ensures
        final(window).wf(),
        (*final(errors), final(stream_data_packet)@, pid_map_entries(*final(pid_map)), final(window)@)
            == process_outcome(
            *old(errors),
            old(stream_data_packet)@,
            pmt_pid,
            probe_id@,
            pid_map_entries(*old(pid_map)),
            old(window)@,
        ),
{
    let shared = share_packet(&stream_data_packet.packet);
    let bytes = packet_bytes(&shared);
    let _buffer_len = bytes.len();
    let packet = slice_subrange(
        bytes,
        stream_data_packet.packet_start,
        stream_data_packet.packet_start + stream_data_packet.packet_len,
    );

    let mut updated_stream_data = stream_data_packet.clone();

    if stream_data_packet.pid != 0x1FFF {
        tr101290_p1_check(
            packet,
            errors,
            stream_data_packet.pid,
            &mut updated_stream_data,
            pid_map,
        );
        tr101290_p2_check(packet, errors, &mut updated_stream_data);
    }

    stream_data_packet.pts = updated_stream_data.pts;
    stream_data_packet.pcr = updated_stream_data.pcr;

    let pid = stream_data_packet.pid;

    let existing = match pid_map_get(pid_map, pid) {
        Some(entry) => Some(entry.clone()),
        None => None,
    };

    match existing {
        Some(mut stream_data) => {
            stream_data.update_capture_time(stream_data_packet.capture_time);
            stream_data.update_stream_type_number(stream_data_packet.stream_type_number);
            stream_data.update_stats(packet.len());
            stream_data.update_capture_iat(stream_data_packet.capture_iat, window);
            if stream_data.pid != 0x1FFF {
                stream_data.set_continuity_counter(stream_data_packet.continuity_counter);
            }

            if stream_data_packet.timestamp != 0 {
                stream_data.timestamp = stream_data_packet.timestamp;
            }

            stream_data.pmt_pid = pmt_pid;
            stream_data.program_number = stream_data_packet.program_number;
            stream_data.pts = stream_data_packet.pts;
            stream_data.pcr = stream_data_packet.pcr;

            stream_data_packet.bitrate = stream_data.bitrate;
            stream_data_packet.bitrate_avg = stream_data.bitrate_avg;
            stream_data_packet.bitrate_max = stream_data.bitrate_max;
            stream_data_packet.bitrate_min = stream_data.bitrate_min;
            stream_data_packet.iat = stream_data.iat;
            stream_data_packet.iat_avg = stream_data.iat_avg;
            stream_data_packet.iat_max = stream_data.iat_max;
            stream_data_packet.iat_min = stream_data.iat_min;
            stream_data_packet.stream_type = stream_data.stream_type.clone();
            stream_data_packet.start_time = stream_data.start_time;
            stream_data_packet.last_arrival_time = stream_data.last_arrival_time;
            stream_data_packet.last_sample_time = stream_data.last_sample_time;
            stream_data_packet.total_bits_sample = stream_data.total_bits_sample;
            stream_data_packet.total_bits = stream_data.total_bits;
            stream_data_packet.count = stream_data.count;
            stream_data_packet.pmt_pid = pmt_pid;
            stream_data_packet.program_number = stream_data.program_number;
            stream_data_packet.error_count = stream_data.error_count;
            stream_data_packet.current_error_count = stream_data.current_error_count;
            if stream_data_packet.timestamp == 0 {
                stream_data_packet.timestamp = stream_data.timestamp;
            }
            stream_data_packet.probe_id = probe_id.clone();

            pid_map_insert(pid_map, pid, stream_data);
        },
        None => {
            if pmt_pid != 0xFFFF {
                // a new PID after the PMT is known: nothing is recorded here
            } else {
                let mut stream_data = StreamData::new(
                    Arc::new(Vec::new()),
                    0,
                    0,
                    stream_data_packet.pid,
                    stream_data_packet.stream_type.clone(),
                    stream_data_packet.stream_type_number,
                    stream_data_packet.program_number,
                    stream_data_packet.start_time,
                    stream_data_packet.timestamp,
                    stream_data_packet.continuity_counter,
                    stream_data_packet.capture_time,
                    stream_data_packet.capture_iat,
                    stream_data_packet.source_ip.clone(),
                    stream_data_packet.source_port,
                    probe_id.clone(),
                );
                stream_data.update_stats(packet.len());
                stream_data.update_capture_iat(stream_data_packet.capture_iat, window);
                if stream_data_packet.pid != 0x1FFF {
                    stream_data.set_continuity_counter(stream_data_packet.continuity_counter);
                }
                pid_map_insert(pid_map, pid, stream_data);
            }
        },
    }
}

// ---------------------------------------------------------------------------
// PID map updates from PAT and PMT
// ---------------------------------------------------------------------------

/// The `k`-th complete 188-byte chunk of a buffer of PAT packets.
pub open spec fn pat_chunk(pat: Seq<u8>, k: int) -> Seq<u8> {
    pat.subrange(TS_PACKET_SIZE * k, TS_PACKET_SIZE * k + TS_PACKET_SIZE)
}

/// The PAT entries of the first `n` complete chunks, chunk after chunk.
pub open spec fn pat_chunk_entries(pat: Seq<u8>, n: int) -> Seq<PatEntry>
    decreases n,
{
    if n <= 0 {
        seq![]
    } else {
        pat_chunk_entries(pat, n - 1) + pat_entries(pat_chunk(pat, n - 1))
    }
}

/// The PAT entries of all complete chunks of a buffer of PAT packets.
pub open spec fn stored_pat_entries(pat: Seq<u8>) -> Seq<PatEntry> {
    pat_chunk_entries(pat, pat.len() as int / TS_PACKET_SIZE as int)
}

/// Every complete chunk of the buffer can be parsed as a PAT.
pub open spec fn pat_chunks_readable(pat: Seq<u8>) -> bool {
    forall|k: int| 0 <= k < pat.len() as int / TS_PACKET_SIZE as int ==> pat_readable(#[trigger] pat_chunk(pat, k))
}

/// Where and when the streams announced by a PMT were seen.
pub struct StreamOrigin {
    pub timestamp: u64,
    pub capture_timestamp: u64,
    pub capture_iat: u64,
    pub source_ip: Seq<char>,
    pub source_port: i32,
    pub probe_id: Seq<char>,
}

/// The map and window after one PMT stream entry of program `pn` is
/// accounted for: a new PID gets a fresh record, a known one has its stream
/// type renewed; either way its statistics and inter-arrival time advance.
pub open spec fn pmt_entry_update(
    m: Map<u16, StreamDataView>,
    w: Seq<u64>,
    e: PmtEntryView,
    pn: u16,
    pmt_len: usize,
    o: StreamOrigin,
) -> (Map<u16, StreamDataView>, Seq<u64>) {
    let pid = e.stream_pid;
    let name = stream_type_name_of(e.stream_type);
    let entry = if !m.dom().contains(pid) {
        let n = new_stream_view(
            Seq::empty(),
            0,
            0,
            pid,
            name,
            e.stream_type,
            pn,
            o.timestamp,
            o.timestamp,
            0,
            o.capture_timestamp,
            o.capture_iat,
            o.source_ip,
            o.source_port,
            o.probe_id,
        );
        with_capture_iat(stats_after(n, pmt_len), o.capture_iat, w)
    } else {
        let old_entry = m[pid];
        let renamed = StreamDataView {
            stream_type: name,
            stream_type_number: e.stream_type,
            ..old_entry
        };
        with_capture_iat(stats_after(renamed, old_entry.packet_len), o.capture_iat, w)
    };
    (m.insert(pid, entry), window_after(w, o.capture_iat))
}

/// The map and window after all stream entries `es` of a PMT are accounted
/// for as streams of program `pn`, in order.
pub open spec fn pmt_update(
    m: Map<u16, StreamDataView>,
    w: Seq<u64>,
    es: Seq<PmtEntryView>,
    pn: u16,
    pmt_len: usize,
    o: StreamOrigin,
) -> (Map<u16, StreamDataView>, Seq<u64>)
    decreases es.len(),
{
    if es.len() == 0 {
        (m, w)
    } else {
        let (m1, w1) = pmt_update(m, w, es.drop_last(), pn, pmt_len, o);
        pmt_entry_update(m1, w1, es.last(), pn, pmt_len, o)
    }
}

/// The map and window after the PMT entries `es` are accounted for once
/// for each PAT program in `pes`, in order.
pub open spec fn pat_update(
    m: Map<u16, StreamDataView>,
    w: Seq<u64>,
    pes: Seq<PatEntry>,
    es: Seq<PmtEntryView>,
    pmt_len: usize,
    o: StreamOrigin,
) -> (Map<u16, StreamDataView>, Seq<u64>)
    decreases pes.len(),
{
    if pes.len() == 0 {
        (m, w)
    } else {
        let (m1, w1) = pat_update(m, w, pes.drop_last(), es, pmt_len, o);
        pmt_update(m1, w1, es, pes.last().program_number, pmt_len, o)
    }
}

/// The program number `update_pid_map` reports: that of the last PAT
/// program, 0 when there is none.
pub open spec fn last_program_number(pes: Seq<PatEntry>) -> u16 {
    if pes.len() > 0 {
        pes.last().program_number
    } else {
        0
    }
}

/// What `update_pid_map` needs: every stored PAT chunk can be parsed, and
/// the PMT packet too when some program will use it.
pub open spec fn pid_map_update_readable(pmt: Seq<u8>, pat: Seq<u8>) -> bool {
    &&& pat_chunks_readable(pat)
    &&& stored_pat_entries(pat).len() > 0 ==> pmt_readable(pmt)
}

/// Tells whether `update_pid_map` can read its PMT and PAT packets.
pub fn pid_map_update_is_readable(pmt_packet: &[u8], last_pat_packet: &[u8]) -> (r: bool)
    ensures
        r == pid_map_update_readable(pmt_packet@, last_pat_packet@),
{
    let pat_len = last_pat_packet.len();
    let chunk_count = pat_len / TS_PACKET_SIZE;
    let mut any_program = false;
    let mut k: usize = 0;
    while k < chunk_count
        invariant
            k <= chunk_count,
            pat_len == last_pat_packet@.len(),
            chunk_count == last_pat_packet@.len() as int / TS_PACKET_SIZE as int,
            forall|j: int| 0 <= j < k ==> pat_readable(#[trigger] pat_chunk(last_pat_packet@, j)),
            any_program == (pat_chunk_entries(last_pat_packet@, k as int).len() > 0),
        decreases chunk_count - k,
    {
        assert(TS_PACKET_SIZE * k + TS_PACKET_SIZE <= pat_len) by (nonlinear_arith)
            requires
                k < chunk_count,
                chunk_count == pat_len as int / 188,
                TS_PACKET_SIZE == 188,
        ;
        let chunk = slice_subrange(
            last_pat_packet,
            TS_PACKET_SIZE * k,
            TS_PACKET_SIZE * k + TS_PACKET_SIZE,
        );
        if !pat_is_readable(chunk) {
            assert(chunk@ == pat_chunk(last_pat_packet@, k as int));
            assert(!pat_chunks_readable(last_pat_packet@));
            return false;
        }
        let entries = parse_pat(chunk);
        if entries.len() > 0 {
            any_program = true;
        }
        k += 1;
    }
    if any_program {
        pmt_is_readable(pmt_packet)
    } else {
        true
    }
}

/// Records in the PID map the streams that a PMT packet announces, once
/// for each program of the stored PAT packets, stamping new streams with
/// `timestamp`; returns the last program number of the PAT (0 if none).
pub fn update_pid_map_at(
    pmt_packet: &[u8],
    last_pat_packet: &[u8],
    capture_timestamp: u64,
    capture_iat: u64,
    source_ip: String,
    source_port: i32,
    probe_id: String,
    timestamp: u64,
    pid_map: &mut PidMap,
    window: &mut IatCaptureWindow,
) -> (r: u16)
    requires
        pid_map_update_readable(pmt_packet@, last_pat_packet@),
        old(window).wf(),
    ensures
        final(window).wf(),
        r == last_program_number(stored_pat_entries(last_pat_packet@)),
        (pid_map_entries(*final(pid_map)), final(window)@) == pat_update(
            pid_map_entries(*old(pid_map)),
            old(window)@,
            stored_pat_entries(last_pat_packet@),
            pmt_of(pmt_packet@).entries,
            pmt_packet@.len() as usize,
            StreamOrigin {
                timestamp,
                capture_timestamp,
                capture_iat,
                source_ip: source_ip@,
                source_port,
                probe_id: probe_id@,
            },
        ),
{
    let ghost o = StreamOrigin {
        timestamp,
        capture_timestamp,
        capture_iat,
        source_ip: source_ip@,
        source_port,
        probe_id: probe_id@,
    };
    let ghost m0 = pid_map_entries(*pid_map);
    let ghost w0 = window@;
    let mut program_number_result: u16 = 0;

    let pat_len = last_pat_packet.len();
    let chunk_count = pat_len / TS_PACKET_SIZE;
    let mut program_pids: Vec<PatEntry> = Vec::new();
    let mut k: usize = 0;
    while k < chunk_count
        invariant
            k <= chunk_count,
            pat_len == last_pat_packet@.len(),
            chunk_count == last_pat_packet@.len() as int / TS_PACKET_SIZE as int,
            pat_chunks_readable(last_pat_packet@),
            program_pids@ == pat_chunk_entries(last_pat_packet@, k as int),
        decreases chunk_count - k,
    {
        assert(pat_readable(pat_chunk(last_pat_packet@, k as int)));
        assert(TS_PACKET_SIZE * k + TS_PACKET_SIZE <= pat_len) by (nonlinear_arith)
            requires
                k < chunk_count,
                chunk_count == pat_len as int / 188,
                TS_PACKET_SIZE == 188,
        ;
        let ghost before = program_pids@;
        let chunk = slice_subrange(
            last_pat_packet,
            TS_PACKET_SIZE * k,
            TS_PACKET_SIZE * k + TS_PACKET_SIZE,
        );
        let mut entries = parse_pat(chunk);
        program_pids.append(&mut entries);
        assert(program_pids@ =~= pat_chunk_entries(last_pat_packet@, k + 1));
        k += 1;
    }
    let ghost pes = program_pids@;
    let pmt_len_bytes = pmt_packet.len();
    let ghost pmt_len = pmt_len_bytes;

    let mut i: usize = 0;
    while i < program_pids.len()
        invariant
            i <= pes.len(),
            pes == program_pids@,
            pes == stored_pat_entries(last_pat_packet@),
            pes.len() > 0 ==> pmt_readable(pmt_packet@),
            pmt_len == pmt_packet@.len(),
            window.wf(),
            o == (StreamOrigin {
                timestamp,
                capture_timestamp,
                capture_iat,
                source_ip: source_ip@,
                source_port,
                probe_id: probe_id@,
            }),
            program_number_result == last_program_number(pes.take(i as int)),
            (pid_map_entries(*pid_map), window@) == pat_update(
                m0,
                w0,
                pes.take(i as int),
                pmt_of(pmt_packet@).entries,
                pmt_len,
                o,
            ),
        decreases pes.len() - i,
    {
        let program_number = program_pids[i].program_number;
        program_number_result = program_number;

        let pmt = parse_pmt(pmt_packet);
        let ghost es = pmt@.entries;
        let ghost m_i = pid_map_entries(*pid_map);
        let ghost w_i = window@;

        let mut j: usize = 0;
        while j < pmt.entries.len()
            invariant
                j <= es.len(),
                es == pmt.entries@.map_values(|e: PmtEntry| e@),
                es == pmt_of(pmt_packet@).entries,
                pmt_len == pmt_packet@.len(),
                window.wf(),
                o == (StreamOrigin {
                    timestamp,
                    capture_timestamp,
                    capture_iat,
                    source_ip: source_ip@,
                    source_port,
                    probe_id: probe_id@,
                }),
                (pid_map_entries(*pid_map), window@) == pmt_update(
                    m_i,
                    w_i,
                    es.take(j as int),
                    program_number,
                    pmt_len,
                    o,
                ),
            decreases es.len() - j,
        {
            let entry = &pmt.entries[j];
            assert(es[j as int] == entry@);
            assert(es.take(j + 1).drop_last() =~= es.take(j as int));
            let stream_pid = entry.stream_pid;
            let stream_type_num = entry.stream_type;
            let stream_type = stream_type_name(entry.stream_type);

            if !pid_map_contains(pid_map, stream_pid) {
                let mut stream_data = StreamData::new(
                    Arc::new(Vec::new()),
                    0,
                    0,
                    stream_pid,
                    stream_type,
                    stream_type_num,
                    program_number,
                    timestamp,
                    timestamp,
                    0,
                    capture_timestamp,
                    capture_iat,
                    source_ip.clone(),
                    source_port,
                    probe_id.clone(),
                );
                stream_data.update_stats(pmt_packet.len());
                stream_data.update_capture_iat(capture_iat, window);
                pid_map_insert(pid_map, stream_pid, stream_data);
            } else {
                let mut stream_data = pid_map_get(pid_map, stream_pid).unwrap().clone();
                let stream_len = stream_data.packet_len;
                stream_data.update_stream_type(stream_type);
                stream_data.update_stream_type_number(entry.stream_type);
                stream_data.update_stats(stream_len);
                stream_data.update_capture_iat(capture_iat, window);
                pid_map_insert(pid_map, stream_pid, stream_data);
            }
            j += 1;
        }
        assert(es.take(es.len() as int) =~= es);
        assert(pes.take(i + 1).drop_last() =~= pes.take(i as int));
        i += 1;
    }
    assert(pes.take(pes.len() as int) =~= pes);
    program_number_result
}

/// `update_pid_map_at`, stamping new streams with the current time (by the
/// system clock; a clock before 1970 reads as 0).
pub fn update_pid_map(
    pmt_packet: &[u8],
    last_pat_packet: &[u8],
    capture_timestamp: u64,
    capture_iat: u64,
    source_ip: String,
    source_port: i32,
    probe_id: String,
    pid_map: &mut PidMap,
    window: &mut IatCaptureWindow,
) -> (r: u16)
    requires
        pid_map_update_readable(pmt_packet@, last_pat_packet@),
        old(window).wf(),
    ensures
        final(window).wf(),
        r == last_program_number(stored_pat_entries(last_pat_packet@)),
        exists|timestamp: u64|
            (pid_map_entries(*final(pid_map)), final(window)@) == pat_update(
                pid_map_entries(*old(pid_map)),
                old(window)@,
                stored_pat_entries(last_pat_packet@),
                pmt_of(pmt_packet@).entries,
                pmt_packet@.len() as usize,
                StreamOrigin {
                    timestamp,
                    capture_timestamp,
                    capture_iat,
                    source_ip: source_ip@,
                    source_port,
                    probe_id: probe_id@,
                },
            ),
{
    let timestamp = match current_unix_timestamp_ms() {
        Some(t) => t,
        None => 0,
    };
    update_pid_map_at(
        pmt_packet,
        last_pat_packet,
        capture_timestamp,
        capture_iat,
        source_ip,
        source_port,
        probe_id,
        timestamp,
        pid_map,
        window,
    )
}

// ---------------------------------------------------------------------------
// Splitting a captured datagram into transport-stream packets
// ---------------------------------------------------------------------------

/// The measure under which the scan of a buffer of length `len` shrinks.
pub open spec fn scan_measure(len: int, start: int) -> int {
    if start <= len {
        len - start
    } else {
        0
    }
}

/// The chunks (start, size) that the scan from `start` takes as MPEG-TS
/// packets: a chunk of `read_size` bytes starting with the sync byte 0x47
/// is taken and the scan moves on by `packet_size`; otherwise it moves on by
/// one byte and reads single bytes until it finds a sync byte again.
pub open spec fn sync_chunks(p: Seq<u8>, start: int, read_size: int, packet_size: int) -> Seq<
    (int, int),
>
    decreases scan_measure(p.len() as int, start),
{
    if start < 0 || read_size < 1 || packet_size < 1 || start + read_size > p.len() {
        seq![]
    } else if p[start] == 0x47 {
        seq![(start, read_size)] + sync_chunks(p, start + packet_size, packet_size, packet_size)
    } else {
        sync_chunks(p, start + 1, 1, packet_size)
    }
}

/// The scan from `start` reads only bytes that are present: no empty
/// chunk is read, and each chunk taken as a packet holds the header bytes
/// (and the PCR, when flagged) that the scan reads.
pub open spec fn scan_safe(p: Seq<u8>, start: int, read_size: int, packet_size: int) -> bool
    decreases scan_measure(p.len() as int, start),
{
    if start < 0 || start + read_size > p.len() {
        true
    } else if read_size < 1 {
        false
    } else if p[start] == 0x47 {
        packet_size >= 1 && timestamp_readable(p.subrange(start, start + read_size)) && scan_safe(
            p,
            start + packet_size,
            packet_size,
            packet_size,
        )
    } else {
        scan_safe(p, start + 1, 1, packet_size)
    }
}

/// Tells whether the scan of `process_mpegts_packet` reads only bytes that
/// are present.
pub fn mpegts_scan_is_safe(payload_offset: usize, packet: &[u8], packet_size: usize) -> (r: bool)
    ensures
        r == scan_safe(packet@, payload_offset as int, packet_size as int, packet_size as int),
{
    let len = packet.len();
    let mut start = payload_offset;
    let mut read_size = packet_size;
    while read_size <= len && start <= len - read_size
        invariant
            len == packet@.len(),
            read_size == packet_size || read_size == 1,
            scan_safe(packet@, payload_offset as int, packet_size as int, packet_size as int)
                == scan_safe(packet@, start as int, read_size as int, packet_size as int),
        decreases scan_measure(packet@.len() as int, start as int),
    {
        if read_size < 1 {
            return false;
        }
        if packet[start] == 0x47 {
            let chunk = slice_subrange(packet, start, start + read_size);
            if packet_size < 1 || !timestamp_is_readable(chunk) {
                return false;
            }
            if packet_size > len - start {
                return true;
            }
            start += packet_size;
            read_size = packet_size;
        } else {
            start += 1;
            read_size = 1;
        }
    }
    true
}

/// The window after `n` recordings of the same inter-arrival time.
pub open spec fn windows_after(w: Seq<u64>, iat: u64, n: nat) -> Seq<u64>
    decreases n,
{
    if n == 0 {
        w
    } else {
        window_after(windows_after(w, iat, (n - 1) as nat), iat)
    }
}

/// When and where a captured datagram was received.
pub struct CaptureOrigin {
    pub start_time: u64,
    pub capture_timestamp: u64,
    pub capture_iat: u64,
    pub source_ip: Seq<char>,
    pub source_port: i32,
    pub probe_id: Seq<char>,
}

/// The record made for the `k`-th packet found in datagram `p`, at `chunk`.
pub open spec fn mpegts_stream(
    p: Seq<u8>,
    chunk: (int, int),
    k: nat,
    packet_size: usize,
    o: CaptureOrigin,
    m: Map<u16, StreamDataView>,
    w: Seq<u64>,
) -> StreamDataView {
    let c = p.subrange(chunk.0, chunk.0 + chunk.1);
    let pid = pid_of(c);
    let n = new_stream_view(
        p,
        chunk.0 as usize,
        packet_size,
        pid,
        stream_type_for(m, pid),
        stream_type_number_for(m, pid),
        program_number_for(m, pid),
        o.start_time,
        timestamp_of(c),
        c[3] & 0x0F,
        o.capture_timestamp,
        o.capture_iat,
        o.source_ip,
        o.source_port,
        o.probe_id,
    );
    with_capture_iat(stats_after(n, packet_size), o.capture_iat, windows_after(w, o.capture_iat, k))
}

/// Splits a captured datagram into MPEG-TS packets from `payload_offset`
/// on, and makes a stream record for each, typed by what the PID map
/// knows of its PID.
pub fn process_mpegts_packet(
    payload_offset: usize,
    packet: Arc<Vec<u8>>,
    packet_size: usize,
    start_time: u64,
    capture_timestamp: u64,
    capture_iat: u64,
    source_ip: String,
    source_port: i32,
    probe_id: String,
    pid_map: &PidMap,
    window: &mut IatCaptureWindow,
) -> (r: Vec<StreamData>)
    requires
        scan_safe(packet@, payload_offset as int, packet_size as int, packet_size as int),
        payload_offset + packet_size <= usize::MAX,
        packet@.len() + packet_size <= usize::MAX,
        old(window).wf(),
    ensures
        final(window).wf(),
        ({
            let chunks = sync_chunks(
                packet@,
                payload_offset as int,
                packet_size as int,
                packet_size as int,
            );
            let o = CaptureOrigin {
                start_time,
                capture_timestamp,
                capture_iat,
                source_ip: source_ip@,
                source_port,
                probe_id: probe_id@,
            };
            &&& r@.len() == chunks.len()
            &&& forall|k: int|
                0 <= k < chunks.len() ==> (#[trigger] r@[k])@ == mpegts_stream(
                    packet@,
                    chunks[k],
                    k as nat,
                    packet_size,
                    o,
                    pid_map_entries(*pid_map),
                    old(window)@,
                )
            &&& final(window)@ == windows_after(old(window)@, capture_iat, chunks.len())
        }),
{
    let ghost o = CaptureOrigin {
        start_time,
        capture_timestamp,
        capture_iat,
        source_ip: source_ip@,
        source_port,
        probe_id: probe_id@,
    };
    let ghost p = packet@;
    let ghost w0 = window@;
    let ghost m = pid_map_entries(*pid_map);
    let ghost all = sync_chunks(p, payload_offset as int, packet_size as int, packet_size as int);
    let ghost mut done: Seq<(int, int)> = Seq::empty();

    let mut start = payload_offset;
    let mut read_size = packet_size;
    let mut streams: Vec<StreamData> = Vec::new();

    let bytes = packet_bytes(&packet);
    let len = bytes.len();

    while read_size <= len && start <= len - read_size
        invariant
            p == packet@,
            bytes@ == p,
            len == p.len(),
            len + packet_size <= usize::MAX,
            read_size == packet_size || read_size == 1,
            start <= payload_offset || start <= len + packet_size,
            payload_offset + packet_size <= usize::MAX,
            scan_safe(p, start as int, read_size as int, packet_size as int),
            done + sync_chunks(p, start as int, read_size as int, packet_size as int) == all,
            all == sync_chunks(p, payload_offset as int, packet_size as int, packet_size as int),
            o == (CaptureOrigin {
                start_time,
                capture_timestamp,
                capture_iat,
                source_ip: source_ip@,
                source_port,
                probe_id: probe_id@,
            }),
            m == pid_map_entries(*pid_map),
            streams@.len() == done.len(),
            forall|k: int|
                0 <= k < done.len() ==> (#[trigger] streams@[k])@ == mpegts_stream(
                    p,
                    done[k],
                    k as nat,
                    packet_size,
                    o,
                    m,
                    w0,
                ),
            window.wf(),
            window@ == windows_after(w0, capture_iat, done.len()),
        decreases scan_measure(p.len() as int, start as int),
    {
        let chunk = slice_subrange(bytes, start, start + read_size);
        if chunk[0] == 0x47 {
            let chunk_size = read_size;
            read_size = packet_size;

            let pid = extract_pid(chunk);

            let stream_type = determine_stream_type(pid_map, pid);
            let stream_type_number = determine_stream_type_number(pid_map, pid);
            let stream_program_number = determine_stream_program_number(pid_map, pid);
            let timestamp = extract_timestamp(chunk);
            let continuity_counter = chunk[3] & 0x0F;

            let mut stream_data = StreamData::new(
                share_packet(&packet),
                start,
                packet_size,
                pid,
                stream_type,
                stream_type_number,
                stream_program_number,
                start_time,
                timestamp,
                continuity_counter,
                capture_timestamp,
                capture_iat,
                source_ip.clone(),
                source_port,
                probe_id.clone(),
            );
            stream_data.update_stats(packet_size);
            stream_data.update_capture_iat(capture_iat, window);
            let ghost k = done.len();
            proof {
                assert(stream_data@ == mpegts_stream(
                    p,
                    (start as int, chunk_size as int),
                    k,
                    packet_size,
                    o,
                    m,
                    w0,
                ));
            }
            let ghost before = streams@;
            streams.push(stream_data);
            proof {
                let rest = sync_chunks(
                    p,
                    start + packet_size,
                    packet_size as int,
                    packet_size as int,
                );
                assert(done.push((start as int, chunk_size as int)) + rest =~= done + (seq![
                    (start as int, chunk_size as int),
                ] + rest));
                done = done.push((start as int, chunk_size as int));
                assert forall|j: int|
                    0 <= j < done.len() implies (#[trigger] streams@[j])@ == mpegts_stream(
                    p,
                    done[j],
                    j as nat,
                    packet_size,
                    o,
                    m,
                    w0,
                ) by {
                    if j < k {
                        assert(streams@[j] == before[j]);
                    }
                }
            }
            start += read_size;
        } else {
            read_size = 1;
            start += read_size;
        }
    }
    streams
}

// ---------------------------------------------------------------------------
// Laws
// ---------------------------------------------------------------------------

/// After `cleanup_stale_streams`, no stale stream is left, and every stream
/// that was not stale is still there, unchanged.
pub proof fn lemma_live_streams(m: Map<u16, StreamDataView>, now: u64, timeout: u64)
    ensures
        forall|pid: u16|
            #[trigger] live_streams(m, now, timeout).dom().contains(pid) ==> m.dom().contains(pid)
                && !is_stale(m[pid], now, timeout) && live_streams(m, now, timeout)[pid] == m[pid],
        forall|pid: u16|
            m.dom().contains(pid) && !is_stale(m[pid], now, timeout) ==> #[trigger] live_streams(
                m,
                now,
                timeout,
            ).dom().contains(pid),
{
}

/// Cleaning up twice at the same time removes nothing more than cleaning up
/// once.
pub proof fn lemma_cleanup_idempotent(m: Map<u16, StreamDataView>, now: u64, timeout: u64)
    ensures
        live_streams(live_streams(m, now, timeout), now, timeout) == live_streams(m, now, timeout),
{
    assert(live_streams(live_streams(m, now, timeout), now, timeout) =~= live_streams(
        m,
        now,
        timeout,
    ));
}

/// Every chunk the scan takes as a packet, when the scan is safe, holds at
/// least the 4 bytes of a transport-stream header.
pub proof fn lemma_scan_chunks_hold_header(p: Seq<u8>, start: int, read_size: int, packet_size: int)
    requires
        scan_safe(p, start, read_size, packet_size),
    ensures
        forall|k: int|
            0 <= k < sync_chunks(p, start, read_size, packet_size).len() ==> #[trigger] sync_chunks(
                p,
                start,
                read_size,
                packet_size,
            )[k].1 >= 4,
    decreases scan_measure(p.len() as int, start),
{
    if start < 0 || read_size < 1 || packet_size < 1 || start + read_size > p.len() {
    } else if p[start] == 0x47 {
        lemma_scan_chunks_hold_header(p, start + packet_size, packet_size, packet_size);
        let rest = sync_chunks(p, start + packet_size, packet_size, packet_size);
        let cs = sync_chunks(p, start, read_size, packet_size);
        assert(p.subrange(start, start + read_size).len() == read_size);
        assert forall|k: int| 0 <= k < cs.len() implies #[trigger] cs[k].1 >= 4 by {
            if k > 0 {
                assert(cs[k] == rest[k - 1]);
            }
        }
    } else {
        lemma_scan_chunks_hold_header(p, start + 1, 1, packet_size);
        assert(sync_chunks(p, start, read_size, packet_size) == sync_chunks(
            p,
            start + 1,
            1,
            packet_size,
        ));
    }
}

/// Each record that `process_mpegts_packet` makes for a packet found at
/// offset `s` of the datagram (where the sync byte 0x47 stands) carries the
/// packet's 4-bit continuity counter `p[s + 3] % 16`.
pub proof fn lemma_mpegts_records_header_fields(
    p: Seq<u8>,
    payload_offset: int,
    packet_size: usize,
    o: CaptureOrigin,
    m: Map<u16, StreamDataView>,
    w: Seq<u64>,
)
    requires
        scan_safe(p, payload_offset, packet_size as int, packet_size as int),
    ensures
        forall|k: int|
            #![trigger sync_chunks(p, payload_offset, packet_size as int, packet_size as int)[k]]
            0 <= k < sync_chunks(p, payload_offset, packet_size as int, packet_size as int).len()
                ==> {
                let c = sync_chunks(p, payload_offset, packet_size as int, packet_size as int)[k];
                let r = mpegts_stream(p, c, k as nat, packet_size, o, m, w);
                &&& p[c.0] == 0x47
                &&& r.continuity_counter == p[c.0 + 3] % 16
            },
{
    let cs = sync_chunks(p, payload_offset, packet_size as int, packet_size as int);
    lemma_sync_chunks_shape(p, payload_offset, packet_size as int, packet_size as int);
    lemma_scan_chunks_hold_header(p, payload_offset, packet_size as int, packet_size as int);
    assert forall|k: int| 0 <= k < cs.len() implies {
        let c = #[trigger] cs[k];
        let r = mpegts_stream(p, c, k as nat, packet_size, o, m, w);
        &&& p[c.0] == 0x47
        &&& r.continuity_counter == p[c.0 + 3] % 16
    } by {
        let c = cs[k];
        assert(cs[k].1 >= 4);
        assert(payload_offset <= c.0 && c.0 + c.1 <= p.len() && p[c.0] == 0x47);
        let sub = p.subrange(c.0, c.0 + c.1);
        assert(sub[3] == p[c.0 + 3]);
        let b: u8 = p[c.0 + 3];
        assert(b & 0x0F == b % 16) by (bit_vector);
    }
}

/// Processing a packet of a PID the map knows keeps that PID's last PCR
/// timestamp when the packet carries none (timestamp 0), and hands it back
/// in the packet record; a packet with a timestamp replaces it.
pub proof fn lemma_process_keeps_last_timestamp(
    e: Tr101290Errors,
    sd: StreamDataView,
    pmt_pid: u16,
    probe_id: Seq<char>,
    m: Map<u16, StreamDataView>,
    w: Seq<u64>,
)
    requires
        m.dom().contains(sd.pid),
    ensures
        ({
            let (e2, sd2, m2, w2) = process_outcome(e, sd, pmt_pid, probe_id, m, w);
            &&& m2.dom().contains(sd.pid)
            &&& sd.timestamp == 0 ==> m2[sd.pid].timestamp == m[sd.pid].timestamp
                && sd2.timestamp == m[sd.pid].timestamp
            &&& sd.timestamp != 0 ==> m2[sd.pid].timestamp == sd.timestamp && sd2.timestamp
                == sd.timestamp
        }),
{
}

/// The program number `update_pid_map` reports is that of the last program
/// listed in the stored PAT packets, and 0 when they list none.
pub proof fn lemma_reported_program_is_last(pes: Seq<PatEntry>)
    ensures
        pes.len() > 0 ==> last_program_number(pes) == pes[pes.len() - 1].program_number,
        pes.len() == 0 ==> last_program_number(pes) == 0,
{
}

/// True when `es[i]` is the last entry of `es` for its PID.
pub open spec fn last_for_pid(es: Seq<PmtEntryView>, i: int) -> bool {
    &&& 0 <= i < es.len()
    &&& forall|j: int| i < j < es.len() ==> (#[trigger] es[j]).stream_pid != es[i].stream_pid
}

/// The PIDs of the streams listed in `es`.
pub open spec fn pmt_pids(es: Seq<PmtEntryView>) -> Set<u16> {
    Set::new(|pid: u16| exists|i: int| 0 <= i < es.len() && (#[trigger] es[i]).stream_pid == pid)
}

/// After the PMT entries `es` are recorded, the map holds exactly the PIDs
/// it held plus those of `es`, and each PID of `es` reads back the stream
/// type (name and number) of its last entry.
pub proof fn lemma_pmt_update_records_streams(
    m: Map<u16, StreamDataView>,
    w: Seq<u64>,
    es: Seq<PmtEntryView>,
    pn: u16,
    pmt_len: usize,
    o: StreamOrigin,
)
    ensures
        ({
            let m2 = pmt_update(m, w, es, pn, pmt_len, o).0;
            &&& m2.dom() == m.dom().union(pmt_pids(es))
            &&& forall|i: int|
                #[trigger] last_for_pid(es, i) ==> {
                    &&& m2[es[i].stream_pid].stream_type == stream_type_name_of(es[i].stream_type)
                    &&& m2[es[i].stream_pid].stream_type_number == es[i].stream_type
                }
        }),
    decreases es.len(),
{
    if es.len() > 0 {
        let init = es.drop_last();
        lemma_pmt_update_records_streams(m, w, init, pn, pmt_len, o);
        let (m1, w1) = pmt_update(m, w, init, pn, pmt_len, o);
        let x = es.last();
        let m2 = pmt_update(m, w, es, pn, pmt_len, o).0;
        assert(m2 == pmt_entry_update(m1, w1, x, pn, pmt_len, o).0);
        assert(m2.dom() =~= m.dom().union(pmt_pids(es))) by {
            assert forall|pid: u16| pmt_pids(es).contains(pid) <==> (pmt_pids(init).contains(pid)
                || pid == x.stream_pid) by {
                if pmt_pids(es).contains(pid) {
                    let i = choose|i: int| 0 <= i < es.len() && (#[trigger] es[i]).stream_pid == pid;
                    if i < es.len() - 1 {
                        assert(init[i] == es[i]);
                    }
                }
                if pmt_pids(init).contains(pid) {
                    let i = choose|i: int| 0 <= i < init.len() && (#[trigger] init[i]).stream_pid == pid;
                    assert(es[i] == init[i]);
                }
                if pid == x.stream_pid {
                    assert(es[es.len() - 1] == x);
                }
            }
        }
        assert forall|i: int| #[trigger] last_for_pid(es, i) implies {
            &&& m2[es[i].stream_pid].stream_type == stream_type_name_of(es[i].stream_type)
            &&& m2[es[i].stream_pid].stream_type_number == es[i].stream_type
        } by {
            if i < es.len() - 1 {
                assert(es[es.len() - 1] == x);
                assert(es[i] == init[i]);
                assert(last_for_pid(init, i)) by {
                    assert forall|j: int| i < j < init.len() implies (#[trigger] init[j]).stream_pid
                        != init[i].stream_pid by {
                        assert(init[j] == es[j]);
                    }
                }
            }
        }
    }
}

/// After `update_pid_map` with a PAT that lists at least one program, the
/// map holds exactly the PIDs it held plus those of the PMT, and each PID
/// of the PMT reads back the stream type of its last entry there.
pub proof fn lemma_pat_update_records_streams(
    m: Map<u16, StreamDataView>,
    w: Seq<u64>,
    pes: Seq<PatEntry>,
    es: Seq<PmtEntryView>,
    pmt_len: usize,
    o: StreamOrigin,
)
    requires
        pes.len() > 0,
    ensures
        ({
            let m2 = pat_update(m, w, pes, es, pmt_len, o).0;
            &&& m2.dom() == m.dom().union(pmt_pids(es))
            &&& forall|i: int|
                #[trigger] last_for_pid(es, i) ==> {
                    &&& m2[es[i].stream_pid].stream_type == stream_type_name_of(es[i].stream_type)
                    &&& m2[es[i].stream_pid].stream_type_number == es[i].stream_type
                    &&& stream_type_for(m2, es[i].stream_pid) == stream_type_name_of(
                        es[i].stream_type,
                    )
                }
        }),
    decreases pes.len(),
{
    let (m1, w1) = pat_update(m, w, pes.drop_last(), es, pmt_len, o);
    lemma_pmt_update_records_streams(m1, w1, es, pes.last().program_number, pmt_len, o);
    let m2 = pat_update(m, w, pes, es, pmt_len, o).0;
    if pes.len() > 1 {
        lemma_pat_update_records_streams(m, w, pes.drop_last(), es, pmt_len, o);
        assert(m2.dom() =~= m.dom().union(pmt_pids(es)));
    } else {
        assert(pes.drop_last().len() == 0);
        assert(m1 == m);
    }
    assert forall|i: int| #[trigger] last_for_pid(es, i) implies m2.dom().contains(
        es[i].stream_pid,
    ) by {
        assert(pmt_pids(es).contains(es[i].stream_pid));
    }
}

/// Every chunk the scan takes as a packet starts with the sync byte, lies
/// inside the datagram at or after the scan's start, and chunks follow one
/// another at least `packet_size` bytes apart.
pub proof fn lemma_sync_chunks_shape(p: Seq<u8>, start: int, read_size: int, packet_size: int)
    ensures
        ({
            let cs = sync_chunks(p, start, read_size, packet_size);
            &&& forall|k: int|
                0 <= k < cs.len() ==> {
                    let c = #[trigger] cs[k];
                    &&& start <= c.0
                    &&& 1 <= c.1
                    &&& c.0 + c.1 <= p.len()
                    &&& p[c.0] == 0x47
                }
            &&& forall|k: int|
                0 <= k < cs.len() - 1 ==> #[trigger] cs[k].0 + packet_size <= cs[k + 1].0
        }),
    decreases scan_measure(p.len() as int, start),
{
    if start < 0 || read_size < 1 || packet_size < 1 || start + read_size > p.len() {
    } else if p[start] == 0x47 {
        lemma_sync_chunks_shape(p, start + packet_size, packet_size, packet_size);
        let rest = sync_chunks(p, start + packet_size, packet_size, packet_size);
        let cs = sync_chunks(p, start, read_size, packet_size);
        assert forall|k: int| 0 <= k < cs.len() implies {
            let c = #[trigger] cs[k];
            &&& start <= c.0
            &&& 1 <= c.1
            &&& c.0 + c.1 <= p.len()
            &&& p[c.0] == 0x47
        } by {
            if k > 0 {
                assert(cs[k] == rest[k - 1]);
            }
        }
        assert forall|k: int| 0 <= k < cs.len() - 1 implies #[trigger] cs[k].0 + packet_size
            <= cs[k + 1].0 by {
            if k > 0 {
                assert(cs[k] == rest[k - 1]);
                assert(cs[k + 1] == rest[k]);
            } else {
                assert(cs[1] == rest[0]);
            }
        }
    } else {
        lemma_sync_chunks_shape(p, start + 1, 1, packet_size);
        let cs = sync_chunks(p, start, read_size, packet_size);
        assert(cs == sync_chunks(p, start + 1, 1, packet_size));
    }
}

/// Processing a null packet (PID 0x1FFF) leaves the error counters alone;
/// processing a packet of a PID the map knows, or any packet while no PMT
/// is known, leaves the map holding that PID with the packet's capture
/// time and inter-arrival time.
pub proof fn lemma_process_records_pid(
    e: Tr101290Errors,
    sd: StreamDataView,
    pmt_pid: u16,
    probe_id: Seq<char>,
    m: Map<u16, StreamDataView>,
    w: Seq<u64>,
)
    ensures
        ({
            let (e2, sd2, m2, w2) = process_outcome(e, sd, pmt_pid, probe_id, m, w);
            &&& sd.pid == 0x1FFF ==> e2 == e
            &&& (m.dom().contains(sd.pid) || pmt_pid == 0xFFFF) ==> {
                &&& m2.dom().contains(sd.pid)
                &&& m2[sd.pid].capture_time == sd.capture_time
                &&& m2[sd.pid].capture_iat == sd.capture_iat
                &&& w2 == window_after(w, sd.capture_iat)
            }
            &&& !(m.dom().contains(sd.pid) || pmt_pid == 0xFFFF) ==> m2 == m && w2 == w
        }),
{
}

} // verus!
