use vstd::prelude::*;
use vstd::slice::slice_subrange;
use vstd::slice::slice_to_vec;
use crate::stream_data::{
    Codec, Descriptor, PatEntry, Pmt, PmtEntry, PmtEntryView, PmtInfo, PmtView, TS_PACKET_SIZE,
    descriptors_view,
};

verus! {

// ---------------------------------------------------------------------------
// Transport-stream header fields
// ---------------------------------------------------------------------------

/// The PID that `extract_pid` reports: 0 for a short packet, 0xFFFF when the
/// transport error indicator is set, else the 13-bit PID of the header.
pub open spec fn pid_of(p: Seq<u8>) -> u16 {
    if p.len() < TS_PACKET_SIZE {
        0
    } else if p[1] & 0x80 != 0 {
        0xFFFF
    } else {
        (((p[1] as u16) & 0x1F) << 8) | (p[2] as u16)
    }
}

/// Extracts the PID of a transport-stream packet.
pub fn extract_pid(packet: &[u8]) -> (r: u16)
    ensures
        r == pid_of(packet@),
{
    if packet.len() < TS_PACKET_SIZE {
        return 0;
    }
    let transport_error = (packet[1] & 0x80) != 0;
    if transport_error {
        return 0xFFFF;
    }
    ((packet[1] as u16 & 0x1F) << 8) | packet[2] as u16
}

/// The adaptation_field_control bits of the header.
pub open spec fn afc_of(p: Seq<u8>) -> u8 {
    (p[3] & 0x30) >> 4
}

/// True when the adaptation_field_control bits announce an adaptation field.
pub open spec fn has_adaptation(p: Seq<u8>) -> bool {
    afc_of(p) == 2 || afc_of(p) == 3
}

/// The 27 MHz program clock reference carried at bytes 6..12 of a packet:
/// 33-bit base times 300 plus the 9-bit extension.
pub open spec fn pcr_at(c: Seq<u8>) -> u64 {
    let base: u64 = ((c[6] as u64) << 25) | ((c[7] as u64) << 17) | ((c[8] as u64) << 9) | ((
    c[9] as u64) << 1) | ((c[10] as u64) >> 7);
    let ext: u64 = (((c[10] as u64) & 0x01) << 8) | (c[11] as u64);
    (base * 300 + ext) as u64
}

/// True when the packet carries a PCR in its adaptation field.
pub open spec fn carries_pcr(c: Seq<u8>) -> bool {
    has_adaptation(c) && c[4] > 0 && c[5] & 0x10 != 0
}

/// The timestamp that `extract_timestamp` reports: the PCR when the
/// adaptation field carries one, else 0.
pub open spec fn timestamp_of(c: Seq<u8>) -> u64 {
    if carries_pcr(c) {
        pcr_at(c)
    } else {
        0
    }
}

/// The bytes that `extract_timestamp` reads are present.
pub open spec fn timestamp_readable(c: Seq<u8>) -> bool {
    &&& c.len() >= 4
    &&& has_adaptation(c) ==> c.len() >= 5
    &&& has_adaptation(c) && c[4] > 0 ==> c.len() >= 6
    &&& carries_pcr(c) ==> c.len() >= 12
}

/// Tells whether `extract_timestamp` can read `chunk`.
pub fn timestamp_is_readable(chunk: &[u8]) -> (r: bool)
    ensures
        r == timestamp_readable(chunk@),
{
    if chunk.len() < 4 {
        return false;
    }
    let adaptation_field_control = (chunk[3] & 0x30) >> 4;
    if adaptation_field_control == 0b10 || adaptation_field_control == 0b11 {
        if chunk.len() < 5 {
            return false;
        }
        if chunk[4] > 0 {
            if chunk.len() < 6 {
                return false;
            }
            if (chunk[5] & 0x10) != 0 && chunk.len() < 12 {
                return false;
            }
        }
    }
    true
}

/// Extracts the PCR of a packet, 0 when it carries none.
pub fn extract_timestamp(chunk: &[u8]) -> (r: u64)
    requires
        timestamp_readable(chunk@),
    ensures
        r == timestamp_of(chunk@),
{
    let adaptation_field_control = (chunk[3] & 0x30) >> 4;

    if adaptation_field_control == 0b10 || adaptation_field_control == 0b11 {
        let adaptation_field_length = chunk[4] as usize;

        if adaptation_field_length > 0 && (chunk[5] & 0x10) != 0 {
            let b6 = chunk[6];
            let b7 = chunk[7];
            let b8 = chunk[8];
            let b9 = chunk[9];
            let b10 = chunk[10];
            let b11 = chunk[11];
            let pcr_base = ((b6 as u64) << 25) | ((b7 as u64) << 17) | ((b8 as u64) << 9) | ((
            b9 as u64) << 1) | ((b10 as u64) >> 7);
            let pcr_ext = (((b10 as u64) & 0x01) << 8) | (b11 as u64);
            assert(((b6 as u64) << 25) | ((b7 as u64) << 17) | ((b8 as u64) << 9) | ((
            b9 as u64) << 1) | ((b10 as u64) >> 7) < 0x2_0000_0000) by (bit_vector);
            assert((((b10 as u64) & 0x01) << 8) | (b11 as u64) < 0x200) by (bit_vector);
            pcr_base * 300 + pcr_ext
        } else {
            0
        }
    } else {
        0
    }
}

// ---------------------------------------------------------------------------
// Program Association Table
// ---------------------------------------------------------------------------

/// Where the PAT's programs start: after the header, the adaptation field
/// (when present) and the pointer field.
pub open spec fn pat_programs_start(p: Seq<u8>) -> int {
    let off: int = if has_adaptation(p) {
        5 + p[4]
    } else {
        4
    };
    off + 1 + p[off]
}

/// The bytes that `parse_pat` reads are present: the pointer field lies
/// inside the packet.
pub open spec fn pat_readable(p: Seq<u8>) -> bool {
    p.len() < TS_PACKET_SIZE || p[1] & 0x40 == 0 || !has_adaptation(p) || 5 + p[4] < p.len()
}

/// The program number of the 4-byte PAT entry at `off`.
pub open spec fn pat_program_number_at(p: Seq<u8>, off: int) -> u16 {
    ((p[off] as u16) << 8) | (p[off + 1] as u16)
}

/// The PMT PID of the 4-byte PAT entry at `off`.
pub open spec fn pat_pmt_pid_at(p: Seq<u8>, off: int) -> u16 {
    (((p[off + 2] as u16) & 0x1F) << 8) | (p[off + 3] as u16)
}

/// The PAT entries read from `off` to the end of the packet, 4 bytes each,
/// keeping those with a program number in 1..5000 and a PMT PID in 1..=0x1FFF.
pub open spec fn pat_entries_from(p: Seq<u8>, off: int) -> Seq<PatEntry>
    decreases p.len() - off,
{
    if off < 0 || off + 4 > p.len() {
        seq![]
    } else {
        let program_number = pat_program_number_at(p, off);
        let pmt_pid = pat_pmt_pid_at(p, off);
        let rest = pat_entries_from(p, off + 4);
        if program_number > 0 && pmt_pid > 0 && pmt_pid <= 0x1FFF && program_number < 5000 {
            seq![PatEntry { program_number, pmt_pid }] + rest
        } else {
            rest
        }
    }
}

/// The programs of a PAT packet: none unless the packet is full-size and
/// starts a payload unit.
pub open spec fn pat_entries(p: Seq<u8>) -> Seq<PatEntry> {
    if p.len() < TS_PACKET_SIZE || p[1] & 0x40 == 0 {
        seq![]
    } else {
        pat_entries_from(p, pat_programs_start(p))
    }
}

/// Tells whether `parse_pat` can read `packet`.
pub fn pat_is_readable(packet: &[u8]) -> (r: bool)
    ensures
        r == pat_readable(packet@),
{
    if packet.len() < TS_PACKET_SIZE || (packet[1] & 0x40) == 0 {
        return true;
    }
    let adaptation_field_control = (packet[3] & 0x30) >> 4;
    if adaptation_field_control == 0x02 || adaptation_field_control == 0x03 {
        5 + (packet[4] as usize) < packet.len()
    } else {
        true
    }
}

/// Parses the programs of a PAT packet.
pub fn parse_pat(packet: &[u8]) -> (r: Vec<PatEntry>)
    requires
        pat_readable(packet@),
    ensures
        r@ == pat_entries(packet@),
{
    let mut entries: Vec<PatEntry> = Vec::new();

    if packet.len() < TS_PACKET_SIZE {
        return entries;
    }

    let pusi = (packet[1] & 0x40) != 0;
    if !pusi {
        return entries;
    }

    let adaptation_field_control = (packet[3] & 0x30) >> 4;
    let mut offset: usize = 4;

    if adaptation_field_control == 0x02 || adaptation_field_control == 0x03 {
        let adaptation_field_length = packet[4] as usize;
        offset += 1 + adaptation_field_length;
    }

    let pointer_field = packet[offset] as usize;
    offset += 1 + pointer_field;
    let ghost start = offset as int;
    assert(start == pat_programs_start(packet@));

    while offset <= packet.len() && packet.len() - offset >= 4
        invariant
            start <= offset,
            entries@ + pat_entries_from(packet@, offset as int) == pat_entries_from(
                packet@,
                start,
            ),
        decreases packet.len() - offset,
    {
        let program_number = ((packet[offset] as u16) << 8) | (packet[offset + 1] as u16);
        let pmt_pid = (((packet[offset + 2] as u16) & 0x1F) << 8) | (packet[offset + 3] as u16);
        let ghost old_entries = entries@;

        if program_number > 0 && pmt_pid > 0 && pmt_pid <= 0x1FFF && program_number < 5000 {
            entries.push(PatEntry { program_number, pmt_pid });
            assert(entries@ + pat_entries_from(packet@, offset + 4) =~= old_entries
                + pat_entries_from(packet@, offset as int));
        }
        offset += 4;
    }
    assert(pat_entries_from(packet@, offset as int) =~= Seq::<PatEntry>::empty());
    assert(entries@ =~= entries@ + pat_entries_from(packet@, offset as int));
    entries
}

/// The PMT PID and program number that `parse_and_store_pat` selects: those
/// of the last program whose PMT PID is in 1..=0x1FFF and whose program
/// number is not 0, or (0xFFFF, 0) when there is none.
pub open spec fn pat_selection(es: Seq<PatEntry>) -> (u16, u16)
    decreases es.len(),
{
    if es.len() == 0 {
        (0xFFFF, 0)
    } else {
        let e = es.last();
        if e.pmt_pid > 0 && e.pmt_pid <= 0x1FFF && e.program_number > 0 {
            (e.pmt_pid, e.program_number)
        } else {
            pat_selection(es.drop_last())
        }
    }
}

/// Parses a PAT packet and keeps a copy of it together with the PMT PID and
/// program number it announces.
pub fn parse_and_store_pat(packet: &[u8]) -> (r: PmtInfo)
    requires
        pat_readable(packet@),
    ensures
        r.packet@ == packet@,
        (r.pid, r.program_number) == pat_selection(pat_entries(packet@)),
{
    let pat_entries = parse_pat(packet);
    let mut pmt_info = PmtInfo { pid: 0xFFFF, packet: Vec::new(), program_number: 0 };
    pmt_info.packet = slice_to_vec(packet);

    let mut i: usize = 0;
    while i < pat_entries.len()
        invariant
            i <= pat_entries@.len(),
            pmt_info.packet@ == packet@,
            (pmt_info.pid, pmt_info.program_number) == pat_selection(
                pat_entries@.take(i as int),
            ),
        decreases pat_entries.len() - i,
    {
        let entry = pat_entries[i];
        assert(pat_entries@.take(i + 1).drop_last() =~= pat_entries@.take(i as int));
        if entry.pmt_pid > 0 && entry.pmt_pid <= 0x1FFF {
            if entry.pmt_pid > 0 && entry.pmt_pid <= 0x1FFF && entry.program_number > 0 {
                pmt_info.pid = entry.pmt_pid;
                pmt_info.program_number = entry.program_number;
            }
        }
        i += 1;
    }
    assert(pat_entries@.take(pat_entries@.len() as int) =~= pat_entries@);
    pmt_info
}

// ---------------------------------------------------------------------------
// Descriptors and Program Map Table
// ---------------------------------------------------------------------------

/// The descriptors (tag, length, data) read from `i` while `i < end`,
/// stopping at the first one that does not fit in the packet.
pub open spec fn descriptors_from(p: Seq<u8>, i: int, end: int) -> Seq<(u8, Seq<u8>)>
    decreases p.len() - i,
{
    if 0 <= i && i < end && i + 2 <= p.len() && i + 2 + p[i + 1] <= p.len() {
        seq![(p[i], p.subrange(i + 2, i + 2 + p[i + 1]))] + descriptors_from(
            p,
            i + 2 + p[i + 1],
            end,
        )
    } else {
        seq![]
    }
}

/// Parses the descriptors held in `length` bytes from `offset`.
pub fn parse_descriptors(packet: &[u8], offset: usize, length: usize) -> (r: Vec<Descriptor>)
    requires
        offset + length + 2 <= usize::MAX,
    ensures
        descriptors_view(r@) == descriptors_from(packet@, offset as int, offset + length),
{
    let mut descriptors: Vec<Descriptor> = Vec::new();
    let mut i = offset;
    let ghost end = offset + length;

    while i < offset + length && i + 2 <= packet.len()
        invariant
            offset <= i,
            i == offset || i <= packet@.len(),
            offset + length + 2 <= usize::MAX,
            end == offset + length,
            descriptors_view(descriptors@) + descriptors_from(packet@, i as int, end)
                == descriptors_from(packet@, offset as int, end),
            !(i < offset + length && i + 2 <= packet@.len()) ==> descriptors_from(packet@, i as int, end) =~= Seq::<(u8, Seq<u8>)>::empty(),
        ensures
            descriptors_view(descriptors@) == descriptors_from(packet@, offset as int, end),
        decreases packet.len() + 1 - i,
    {
        let tag = packet[i];
        let len = packet[i + 1] as usize;

        if len <= packet.len() - (i + 2) {
            let data = slice_to_vec(slice_subrange(packet, i + 2, i + 2 + len));
            let ghost before = descriptors@;
            descriptors.push(Descriptor { tag, data });
            assert(descriptors_view(descriptors@) =~= descriptors_view(before).push(
                (tag, packet@.subrange(i + 2, i + 2 + len)),
            ));
            assert(descriptors_view(descriptors@) + descriptors_from(packet@, i + 2 + len, end)
                =~= descriptors_view(before) + descriptors_from(packet@, i as int, end));
        } else {
            assert(descriptors_from(packet@, i as int, end) =~= Seq::<(u8, Seq<u8>)>::empty());
            assert(descriptors_view(descriptors@) =~= descriptors_view(descriptors@)
                + descriptors_from(packet@, i as int, end));
            break;
        }

        i += 2 + len;
    }
    descriptors
}

/// Where the PMT section is taken to start: after the adaptation field
/// when there is one.
pub open spec fn pmt_offset(p: Seq<u8>) -> int {
    if has_adaptation(p) {
        1 + p[4]
    } else {
        0
    }
}

/// The bytes that `parse_pmt` reads are present.
pub open spec fn pmt_readable(p: Seq<u8>) -> bool {
    &&& p.len() >= 4
    &&& has_adaptation(p) ==> p.len() >= 5
    &&& pmt_offset(p) + 4 <= p.len() ==> pmt_offset(p) + 17 <= p.len()
}

/// Tells whether `parse_pmt` can read `packet`.
pub fn pmt_is_readable(packet: &[u8]) -> (r: bool)
    ensures
        r == pmt_readable(packet@),
{
    if packet.len() < 4 {
        return false;
    }
    let adaptation_field_control = (packet[3] & 0x30) >> 4;
    let mut offset: usize = 0;
    if adaptation_field_control == 0x02 || adaptation_field_control == 0x03 {
        if packet.len() < 5 {
            return false;
        }
        offset = 1 + packet[4] as usize;
    }
    if offset + 4 <= packet.len() {
        offset + 17 <= packet.len()
    } else {
        true
    }
}

/// A 12-bit length field: the low nibble of `hi` and all of `lo`.
pub open spec fn len12(hi: u8, lo: u8) -> usize {
    (((hi as usize) & 0x0F) << 8) | (lo as usize)
}

/// A 13-bit PID field: the low 5 bits of `hi` and all of `lo`.
pub open spec fn pid13(hi: u8, lo: u8) -> u16 {
    (((hi as u16) & 0x1F) << 8) | (lo as u16)
}

proof fn lemma_len12_bound(hi: u8, lo: u8)
    ensures
        len12(hi, lo) <= 0xFFF,
{
    assert((((hi as usize) & 0x0F) << 8) | (lo as usize) <= 0xFFF) by (bit_vector);
}

/// The measure under which the PMT entry list shrinks.
pub open spec fn pmt_entries_measure(i: int, limit: int) -> int {
    if i < limit {
        limit - i
    } else {
        0
    }
}

/// The elementary streams of a PMT, read from index `i` (relative to the
/// section offset `off`) while `i < limit` and 5 bytes remain.
pub open spec fn pmt_entries_from(p: Seq<u8>, off: int, i: int, limit: int, pn: u16) -> Seq<
    PmtEntryView,
>
    decreases pmt_entries_measure(i, limit),
{
    if 0 <= off && 0 <= i && i + 5 + off <= p.len() && i < limit {
        let es_info_length = len12(p[i + 3 + off], p[i + 4 + off]);
        let e = PmtEntryView {
            stream_pid: pid13(p[i + 1 + off], p[i + 2 + off]),
            stream_type: p[i + off],
            program_number: pn,
            descriptors: descriptors_from(p, i + 5 + off, i + 5 + off + es_info_length),
        };
        seq![e] + pmt_entries_from(p, off, i + 5 + es_info_length, limit, pn)
    } else {
        seq![]
    }
}

/// The PMT that `parse_pmt` reads from a packet.
pub open spec fn pmt_of(p: Seq<u8>) -> PmtView {
    let off = pmt_offset(p);
    if off + 4 > p.len() {
        PmtView { entries: seq![], descriptors: seq![] }
    } else {
        let program_number = ((p[8 + off] as u16) << 8) | (p[9 + off] as u16);
        let section_length = len12(p[6 + off], p[7 + off]);
        let program_info_length = len12(p[15 + off], p[16 + off]);
        PmtView {
            entries: pmt_entries_from(
                p,
                off,
                17 + program_info_length,
                17 + section_length - 4,
                program_number,
            ),
            descriptors: descriptors_from(p, 17 + off, 17 + off + program_info_length),
        }
    }
}

/// Parses the elementary streams and program descriptors of a PMT packet.
pub fn parse_pmt(packet: &[u8]) -> (r: Pmt)
    requires
        pmt_readable(packet@),
    ensures
        r@ == pmt_of(packet@),
{
    let mut entries: Vec<PmtEntry> = Vec::new();

    let adaptation_field_control = (packet[3] & 0x30) >> 4;
    let mut offset: usize = 0;

    if adaptation_field_control == 0x02 || adaptation_field_control == 0x03 {
        let adaptation_field_length = packet[4] as usize;
        offset += 1 + adaptation_field_length;
    }

    if offset + 4 > packet.len() {
        let r = Pmt { entries, descriptors: Vec::new() };
        assert(r@.entries =~= Seq::<PmtEntryView>::empty());
        assert(r@.descriptors =~= Seq::<(u8, Seq<u8>)>::empty());
        return r;
    }

    let program_number = ((packet[8 + offset] as u16) << 8) | (packet[9 + offset] as u16);

    let section_length = (((packet[6 + offset] as usize) & 0x0F) << 8) | packet[7
        + offset] as usize;
    let program_info_length = (((packet[15 + offset] as usize) & 0x0F) << 8) | packet[16
        + offset] as usize;
    proof {
        lemma_len12_bound(packet@[6 + offset], packet@[7 + offset]);
        lemma_len12_bound(packet@[15 + offset], packet@[16 + offset]);
    }
    let mut i: usize = 17 + program_info_length;
    let limit: usize = 17 + section_length - 4;

    let descriptors = parse_descriptors(packet, 17 + offset, program_info_length);

    let ghost i0 = i as int;
    while i + 5 + offset <= packet.len() && i < limit
        invariant
            offset <= 256,
            limit <= 0x100C,
            i <= 0x3000,
            entries@.map_values(|e: PmtEntry| e@) + pmt_entries_from(
                packet@,
                offset as int,
                i as int,
                limit as int,
                program_number,
            ) == pmt_entries_from(packet@, offset as int, i0, limit as int, program_number),
        decreases pmt_entries_measure(i as int, limit as int),
    {
        let stream_type = packet[i + offset];
        let stream_pid = (((packet[i + 1 + offset] as u16) & 0x1F) << 8) | (packet[i + 2
            + offset] as u16);
        let es_info_length = (((packet[i + 3 + offset] as usize) & 0x0F) << 8) | packet[i + 4
            + offset] as usize;
        proof {
            lemma_len12_bound(packet@[i + 3 + offset], packet@[i + 4 + offset]);
        }

        let es_descriptors = parse_descriptors(packet, i + 5 + offset, es_info_length);
        let ghost before = entries@;
        let entry = PmtEntry {
            stream_pid,
            stream_type,
            program_number,
            descriptors: es_descriptors,
        };
        entries.push(entry);
        assert(entries@.map_values(|e: PmtEntry| e@) =~= before.map_values(|e: PmtEntry| e@).push(
            entry@,
        ));
        assert(entries@.map_values(|e: PmtEntry| e@) + pmt_entries_from(
            packet@,
            offset as int,
            i + 5 + es_info_length,
            limit as int,
            program_number,
        ) =~= before.map_values(|e: PmtEntry| e@) + pmt_entries_from(
            packet@,
            offset as int,
            i as int,
            limit as int,
            program_number,
        ));

        i += 5 + es_info_length;
    }
    assert(pmt_entries_from(packet@, offset as int, i as int, limit as int, program_number)
        =~= Seq::<PmtEntryView>::empty());
    let r = Pmt { entries, descriptors };
    assert(r@.entries =~= entries@.map_values(|e: PmtEntry| e@) + pmt_entries_from(
        packet@,
        offset as int,
        i as int,
        limit as int,
        program_number,
    ));
    r
}

// ---------------------------------------------------------------------------
// Video stream identification
// ---------------------------------------------------------------------------

/// The video codec that a PMT stream type announces, if any.
pub open spec fn codec_of_stream_type(t: u8) -> Option<Codec> {
    if t == 0x01 || t == 0x02 {
        Some(Codec::MPEG2)
    } else if t == 0x1B {
        Some(Codec::H264)
    } else if t == 0x24 {
        Some(Codec::H265)
    } else {
        None
    }
}

/// The PID and codec of the first video stream among `es`.
pub open spec fn first_video(es: Seq<PmtEntryView>) -> Option<(u16, Codec)>
    decreases es.len(),
{
    if es.len() == 0 {
        None
    } else {
        match codec_of_stream_type(es[0].stream_type) {
            Some(c) => Some((es[0].stream_pid, c)),
            None => first_video(es.drop_first()),
        }
    }
}

/// The PID and codec of the first video stream that a PMT packet announces.
pub fn identify_video_pid(pmt_packet: &[u8]) -> (r: Option<(u16, Codec)>)
    requires
        pmt_readable(pmt_packet@),
    ensures
        r == first_video(pmt_of(pmt_packet@).entries),
{
    let pmt = parse_pmt(pmt_packet);
    let ghost es = pmt@.entries;
    let mut i: usize = 0;
    assert(es.skip(0) =~= es);
    while i < pmt.entries.len()
        invariant
            i <= pmt.entries@.len(),
            es == pmt.entries@.map_values(|e: PmtEntry| e@),
            es == pmt_of(pmt_packet@).entries,
            first_video(es) == first_video(es.skip(i as int)),
        decreases pmt.entries.len() - i,
    {
        let entry = &pmt.entries[i];
        assert(es.skip(i as int)[0] == entry@);
        assert(es.skip(i as int).drop_first() =~= es.skip(i + 1));
        let codec = match entry.stream_type {
            0x01..=0x02 => Some(Codec::MPEG2),
            0x1B => Some(Codec::H264),
            0x24 => Some(Codec::H265),
            _ => None,
        };
        assert(codec == codec_of_stream_type(entry.stream_type));
        if let Some(c) = codec {
            assert(es.skip(i as int).len() > 0);
            assert(first_video(es.skip(i as int)) == Some((entry.stream_pid, c)));
            return Some((entry.stream_pid, c));
        }
        i += 1;
    }
    None
}

// ---------------------------------------------------------------------------
// Stream type names
// ---------------------------------------------------------------------------

/// The human-readable name of a PMT stream type.
pub open spec fn stream_type_name_of(t: u8) -> Seq<char> {
    match t {
        0x00 => "Reserved"@,
        0x01 => "ISO/IEC 11172 MPEG-1 Video"@,
        0x02 => "ISO/IEC 13818-2 MPEG-2 Video"@,
        0x03 => "ISO/IEC 11172 MPEG-1 Audio"@,
        0x04 => "ISO/IEC 13818-3 MPEG-2 Audio"@,
        0x05 => "ISO/IEC 13818-1 Private Section"@,
        0x06 => "ISO/IEC 13818-1 Private PES data packets"@,
        0x07 => "ISO/IEC 13522 MHEG"@,
        0x08 => "ISO/IEC 13818-1 Annex A DSM CC"@,
        0x09 => "H222.1"@,
        0x0A => "ISO/IEC 13818-6 type A"@,
        0x0B => "ISO/IEC 13818-6 type B"@,
        0x0C => "ISO/IEC 13818-6 type C"@,
        0x0D => "ISO/IEC 13818-6 type D"@,
        0x0E => "ISO/IEC 13818-1 auxillary"@,
        0x0F => "13818-7 AAC Audio with ADTS transport syntax"@,
        0x10 => "14496-2 Visual (MPEG-4 part 2 video)"@,
        0x11 => "14496-3 MPEG-4 Audio with LATM transport syntax (14496-3/AMD 1)"@,
        0x12 => "14496-1 SL-packetized or FlexMux stream in PES packets"@,
        0x13 => "14496-1 SL-packetized or FlexMux stream in 14496 sections"@,
        0x14 => "ISO/IEC 13818-6 Synchronized Download Protocol"@,
        0x15 => "Metadata in PES packets"@,
        0x16 => "Metadata in metadata_sections"@,
        0x17 => "Metadata in 13818-6 Data Carousel"@,
        0x18 => "Metadata in 13818-6 Object Carousel"@,
        0x19 => "Metadata in 13818-6 Synchronized Download Protocol"@,
        0x1A => "13818-11 MPEG-2 IPMP stream"@,
        0x1B => "H.264/14496-10 video (MPEG-4/AVC)"@,
        0x24 => "H.265 video (MPEG-H/HEVC)"@,
        0x42 => "AVS Video"@,
        0x7F => "IPMP stream"@,
        0x81 => "ATSC A/52 AC-3"@,
        0x86 => "SCTE 35 Splice Information Table"@,
        0x87 => "ATSC A/52e AC-3"@,
        _ => if t < 0x80 {
            "ISO/IEC 13818-1 reserved"@
        } else {
            "User Private"@
        },
    }
}

/// The human-readable name of a PMT stream type.
pub fn stream_type_name(stream_type: u8) -> (r: String)
    ensures
        r@ == stream_type_name_of(stream_type),
{
    let name = match stream_type {
        0x00 => "Reserved",
        0x01 => "ISO/IEC 11172 MPEG-1 Video",
        0x02 => "ISO/IEC 13818-2 MPEG-2 Video",
        0x03 => "ISO/IEC 11172 MPEG-1 Audio",
        0x04 => "ISO/IEC 13818-3 MPEG-2 Audio",
        0x05 => "ISO/IEC 13818-1 Private Section",
        0x06 => "ISO/IEC 13818-1 Private PES data packets",
        0x07 => "ISO/IEC 13522 MHEG",
        0x08 => "ISO/IEC 13818-1 Annex A DSM CC",
        0x09 => "H222.1",
        0x0A => "ISO/IEC 13818-6 type A",
        0x0B => "ISO/IEC 13818-6 type B",
        0x0C => "ISO/IEC 13818-6 type C",
        0x0D => "ISO/IEC 13818-6 type D",
        0x0E => "ISO/IEC 13818-1 auxillary",
        0x0F => "13818-7 AAC Audio with ADTS transport syntax",
        0x10 => "14496-2 Visual (MPEG-4 part 2 video)",
        0x11 => "14496-3 MPEG-4 Audio with LATM transport syntax (14496-3/AMD 1)",
        0x12 => "14496-1 SL-packetized or FlexMux stream in PES packets",
        0x13 => "14496-1 SL-packetized or FlexMux stream in 14496 sections",
        0x14 => "ISO/IEC 13818-6 Synchronized Download Protocol",
        0x15 => "Metadata in PES packets",
        0x16 => "Metadata in metadata_sections",
        0x17 => "Metadata in 13818-6 Data Carousel",
        0x18 => "Metadata in 13818-6 Object Carousel",
        0x19 => "Metadata in 13818-6 Synchronized Download Protocol",
        0x1A => "13818-11 MPEG-2 IPMP stream",
        0x1B => "H.264/14496-10 video (MPEG-4/AVC)",
        0x24 => "H.265 video (MPEG-H/HEVC)",
        0x42 => "AVS Video",
        0x7F => "IPMP stream",
        0x81 => "ATSC A/52 AC-3",
        0x86 => "SCTE 35 Splice Information Table",
        0x87 => "ATSC A/52e AC-3",
        _ if stream_type < 0x80 => "ISO/IEC 13818-1 reserved",
        _ => "User Private",
    };
    name.to_owned()
}

// ---------------------------------------------------------------------------
// Laws
// ---------------------------------------------------------------------------

/// A PID that `extract_pid` reports is a 13-bit PID, or 0xFFFF for a
/// packet with the transport error indicator set.
pub proof fn lemma_pid_range(p: Seq<u8>)
    ensures
        pid_of(p) <= 0x1FFF || pid_of(p) == 0xFFFF,
{
    if p.len() >= TS_PACKET_SIZE && p[1] & 0x80 == 0 {
        let b1 = p[1];
        let b2 = p[2];
        assert((((b1 as u16) & 0x1F) << 8) | (b2 as u16) <= 0x1FFF) by (bit_vector);
    }
}

/// Every program `parse_pat` reports has a program number in 1..5000 and a
/// PMT PID in 1..=0x1FFF.
pub proof fn lemma_pat_entries_valid(p: Seq<u8>, off: int)
    ensures
        forall|i: int|
            0 <= i < pat_entries_from(p, off).len() ==> {
                let e = #[trigger] pat_entries_from(p, off)[i];
                0 < e.program_number < 5000 && 0 < e.pmt_pid <= 0x1FFF
            },
    decreases p.len() - off,
{
    if !(off < 0 || off + 4 > p.len()) {
        lemma_pat_entries_valid(p, off + 4);
        let program_number = pat_program_number_at(p, off);
        let pmt_pid = pat_pmt_pid_at(p, off);
        let rest = pat_entries_from(p, off + 4);
        if program_number > 0 && pmt_pid > 0 && pmt_pid <= 0x1FFF && program_number < 5000 {
            assert forall|i: int| 1 <= i < pat_entries_from(p, off).len() implies pat_entries_from(
                p,
                off,
            )[i] == rest[i - 1] by {}
        }
    }
}

/// The PMT PID that `parse_and_store_pat` keeps is that of the last program
/// of the PAT, or 0xFFFF (with program number 0) when the PAT lists none.
pub proof fn lemma_pat_selection_is_last_program(p: Seq<u8>)
    ensures
        pat_entries(p).len() == 0 ==> pat_selection(pat_entries(p)) == (0xFFFFu16, 0u16),
        pat_entries(p).len() > 0 ==> pat_selection(pat_entries(p)) == (
            pat_entries(p).last().pmt_pid,
            pat_entries(p).last().program_number,
        ),
{
    if p.len() >= TS_PACKET_SIZE && p[1] & 0x40 != 0 {
        lemma_pat_entries_valid(p, pat_programs_start(p));
    }
}

/// The stream that `identify_video_pid` reports is one of the PMT's
/// streams, and its stream type announces the reported codec.
pub proof fn lemma_first_video_is_listed(es: Seq<PmtEntryView>)
    ensures
        first_video(es) matches Some((pid, c)) ==> exists|i: int|
            0 <= i < es.len() && (#[trigger] es[i]).stream_pid == pid && codec_of_stream_type(
                es[i].stream_type,
            ) == Some(c),
        first_video(es) is None ==> forall|i: int|
            0 <= i < es.len() ==> codec_of_stream_type((#[trigger] es[i]).stream_type) is None,
    decreases es.len(),
{
    if es.len() > 0 {
        lemma_first_video_is_listed(es.drop_first());
        if codec_of_stream_type(es[0].stream_type) is None {
            if let Some((pid, c)) = first_video(es.drop_first()) {
                let i = choose|i: int|
                    0 <= i < es.drop_first().len() && (#[trigger] es.drop_first()[i]).stream_pid
                        == pid && codec_of_stream_type(es.drop_first()[i].stream_type) == Some(c);
                assert(es[i + 1] == es.drop_first()[i]);
            } else {
                assert forall|i: int| 0 <= i < es.len() implies codec_of_stream_type(
                    (#[trigger] es[i]).stream_type,
                ) is None by {
                    if i > 0 {
                        assert(es[i] == es.drop_first()[i - 1]);
                    }
                }
            }
        }
    }
}

/// The PCR that `extract_timestamp` reports fits a 33-bit base times 300
/// plus a 9-bit extension.
pub proof fn lemma_timestamp_range(c: Seq<u8>)
    requires
        timestamp_readable(c),
    ensures
        timestamp_of(c) < 0x2_0000_0000 * 300 + 0x200,
{
    if carries_pcr(c) {
        let b6 = c[6];
        let b7 = c[7];
        let b8 = c[8];
        let b9 = c[9];
        let b10 = c[10];
        let b11 = c[11];
        assert(((b6 as u64) << 25) | ((b7 as u64) << 17) | ((b8 as u64) << 9) | ((b9 as u64) << 1)
            | ((b10 as u64) >> 7) < 0x2_0000_0000) by (bit_vector);
        assert((((b10 as u64) & 0x01) << 8) | (b11 as u64) < 0x200) by (bit_vector);
    }
}

/// Whether a PMT stream type announces video: MPEG-1/2 video (0x01, 0x02),
/// H.264 (0x1B) or H.265 (0x24).
pub open spec fn is_video_stream_type(t: u8) -> bool {
    t == 0x01 || t == 0x02 || t == 0x1B || t == 0x24
}

/// `identify_video_pid` reports the first stream whose type announces
/// video, with its codec: 0x01 and 0x02 are MPEG-2, 0x1B is H.264 and 0x24
/// is H.265. With no such stream it reports nothing.
pub proof fn lemma_first_video_table(es: Seq<PmtEntryView>, i: int)
    requires
        0 <= i < es.len(),
        is_video_stream_type(es[i].stream_type),
        forall|j: int| 0 <= j < i ==> !is_video_stream_type(#[trigger] es[j].stream_type),
    ensures
        first_video(es) == Some(
            (
                es[i].stream_pid,
                if es[i].stream_type == 0x24 {
                    Codec::H265
                } else if es[i].stream_type == 0x1B {
                    Codec::H264
                } else {
                    Codec::MPEG2
                },
            ),
        ),
    decreases i,
{
    if i > 0 {
        assert(!is_video_stream_type(es[0].stream_type));
        assert forall|j: int| 0 <= j < i - 1 implies !is_video_stream_type(
            #[trigger] es.drop_first()[j].stream_type,
        ) by {
            assert(es.drop_first()[j] == es[j + 1]);
        }
        lemma_first_video_table(es.drop_first(), i - 1);
    }
}

/// With no stream whose type announces video, `identify_video_pid` reports
/// nothing.
pub proof fn lemma_first_video_none(es: Seq<PmtEntryView>)
    requires
        forall|j: int| 0 <= j < es.len() ==> !is_video_stream_type(#[trigger] es[j].stream_type),
    ensures
        first_video(es) is None,
    decreases es.len(),
{
    if es.len() > 0 {
        assert(!is_video_stream_type(es[0].stream_type));
        assert forall|j: int| 0 <= j < es.len() - 1 implies !is_video_stream_type(
            #[trigger] es.drop_first()[j].stream_type,
        ) by {
            assert(es.drop_first()[j] == es[j + 1]);
        }
        lemma_first_video_none(es.drop_first());
    }
}

} // verus!
