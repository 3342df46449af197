use vstd::prelude::*;
use vstd::string::{StrSliceExecFns, StringExecFns};
use base64::engine::general_purpose;
use base64::Engine;
use ahash::AHashMap;
use crate::pid_map::{PidMap, pid_map_entries, pid_map_get, pid_map_insert, pid_map_new, pid_map_pids};
use crate::stream_data::{StreamData, StreamDataView, packet_bytes};
use crate::text::{decimal_of, decimal_text};

verus! {

// ---------------------------------------------------------------------------
// The latest record of each stream of each probe
// ---------------------------------------------------------------------------

/// What a hash map from probe id to PID map holds: for each probe id, the
/// content of its PID map.
pub uninterp spec fn probe_table_entries(m: AHashMap<String, PidMap>) -> Map<
    Seq<char>,
    Map<u16, StreamDataView>,
>;

/// `AHashMap::new`: an empty map.
#[verifier::external_body]
fn probe_table_new() -> (r: AHashMap<String, PidMap>)
    ensures
        probe_table_entries(r) =~= Map::empty(),
{
    AHashMap::new()
}

/// `AHashMap::remove`: the probe id no longer maps to anything; its PID map
/// is handed back. Keys are compared by content (`String`'s `Eq`).
#[verifier::external_body]
fn probe_table_remove(m: &mut AHashMap<String, PidMap>, probe_id: &String) -> (r: Option<PidMap>)
    ensures
        probe_table_entries(*final(m)) == probe_table_entries(*old(m)).remove(probe_id@),
        probe_table_entries(*old(m)).dom().contains(probe_id@) <==> r is Some,
        r matches Some(g) ==> pid_map_entries(g) == probe_table_entries(*old(m))[probe_id@],
{
    m.remove(probe_id)
}

/// `AHashMap::insert`: the probe id now maps to `groups`.
#[verifier::external_body]
fn probe_table_insert(m: &mut AHashMap<String, PidMap>, probe_id: String, groups: PidMap)
    ensures
        probe_table_entries(*final(m)) == probe_table_entries(*old(m)).insert(
            probe_id@,
            pid_map_entries(groups),
        ),
{
    m.insert(probe_id, groups);
}

/// `AHashMap::get`: the PID map of a probe id, if any.
#[verifier::external_body]
fn probe_table_get<'a>(m: &'a AHashMap<String, PidMap>, probe_id: &String) -> (r: Option<
    &'a PidMap,
>)
    ensures
        probe_table_entries(*m).dom().contains(probe_id@) <==> r is Some,
        r matches Some(g) ==> pid_map_entries(*g) == probe_table_entries(*m)[probe_id@],
{
    m.get(probe_id)
}

/// The probe ids of the map (`HashMap::keys`, cloned), each once, in the
/// map's own arbitrary order.
#[verifier::external_body]
fn probe_table_ids(m: &AHashMap<String, PidMap>) -> (r: Vec<String>)
    ensures
        r@.map_values(|s: String| s@).no_duplicates(),
        forall|id: Seq<char>|
            r@.map_values(|s: String| s@).contains(id) <==> probe_table_entries(*m).dom().contains(
                id,
            ),
{
    m.keys().cloned().collect()
}

/// The latest stream record of each PID, kept for each probe id.
pub struct ProbeStore {
    probes: AHashMap<String, PidMap>,
}

/// What a probe store holds: for each probe id, the records of its PIDs.
pub closed spec fn probe_store_entries(m: ProbeStore) -> Map<Seq<char>, Map<u16, StreamDataView>> {
    probe_table_entries(m.probes)
}

/// An empty store.
pub fn probe_store_new() -> (r: ProbeStore)
    ensures
        probe_store_entries(r) =~= Map::empty(),
{
    ProbeStore { probes: probe_table_new() }
}

/// The PID map of a probe id, if any.
pub fn probe_store_get<'a>(m: &'a ProbeStore, probe_id: &String) -> (r: Option<&'a PidMap>)
    ensures
        probe_store_entries(*m).dom().contains(probe_id@) <==> r is Some,
        r matches Some(g) ==> pid_map_entries(*g) == probe_store_entries(*m)[probe_id@],
{
    probe_table_get(&m.probes, probe_id)
}

/// The probe ids of the store, each once, in the store's own order.
pub fn probe_store_ids(m: &ProbeStore) -> (r: Vec<String>)
    ensures
        r@.map_values(|s: String| s@).no_duplicates(),
        forall|id: Seq<char>|
            r@.map_values(|s: String| s@).contains(id) <==> probe_store_entries(*m).dom().contains(
                id,
            ),
{
    probe_table_ids(&m.probes)
}

/// The store after the record `sd` is kept as the latest of its PID for
/// probe `probe_id`.
pub open spec fn store_after_record(
    m: Map<Seq<char>, Map<u16, StreamDataView>>,
    probe_id: Seq<char>,
    sd: StreamDataView,
) -> Map<Seq<char>, Map<u16, StreamDataView>> {
    let groups = if m.dom().contains(probe_id) {
        m[probe_id]
    } else {
        Map::empty()
    };
    m.insert(probe_id, groups.insert(sd.pid, sd))
}

/// Keeps `sd` as the latest record of its PID for probe `probe_id`,
/// replacing the one kept before, if any.
pub fn record_stream(store: &mut ProbeStore, probe_id: &String, sd: StreamData)
    ensures
        probe_store_entries(*final(store)) == store_after_record(
            probe_store_entries(*old(store)),
            probe_id@,
            sd@,
        ),
{
    let mut groups = match probe_table_remove(&mut store.probes, probe_id) {
        Some(g) => g,
        None => pid_map_new(),
    };
    let pid = sd.pid;
    pid_map_insert(&mut groups, pid, sd);
    probe_table_insert(&mut store.probes, probe_id.clone(), groups);
}

/// The records of a PID map, each once, in the map's own order.
pub fn streams_of(groups: &PidMap) -> (r: Vec<StreamData>)
    ensures
        exists|pids: Seq<u16>|
            {
                &&& pids.no_duplicates()
                &&& pids.len() == r@.len()
                &&& forall|pid: u16| pids.contains(pid) <==> pid_map_entries(*groups).dom().contains(pid)
                &&& forall|i: int| 0 <= i < r@.len() ==> #[trigger] r@[i]@ == pid_map_entries(*groups)[pids[i]]
            },
{
    let pids = pid_map_pids(groups);
    let mut out: Vec<StreamData> = Vec::new();
    let mut i: usize = 0;
    while i < pids.len()
        invariant
            i <= pids@.len(),
            out@.len() == i,
            forall|pid: u16| pids@.contains(pid) <==> pid_map_entries(*groups).dom().contains(pid),
            forall|k: int| 0 <= k < i ==> #[trigger] out@[k]@ == pid_map_entries(*groups)[pids@[k]],
        decreases pids.len() - i,
    {
        let pid = pids[i];
        assert(pids@.contains(pid));
        match pid_map_get(groups, pid) {
            Some(sd) => {
                out.push(sd.clone());
            },
            None => {
                assert(false);
            },
        }
        i += 1;
    }
    assert(out@.len() == pids@.len());
    out
}

/// A record kept for a probe can be read back: after `record_stream`, the
/// probe's entry for the record's PID is that record, and every other
/// (probe, PID) entry is as it was.
pub proof fn lemma_record_then_lookup(
    m: Map<Seq<char>, Map<u16, StreamDataView>>,
    probe_id: Seq<char>,
    sd: StreamDataView,
    other_id: Seq<char>,
    other_pid: u16,
)
    ensures
        store_after_record(m, probe_id, sd).dom().contains(probe_id),
        store_after_record(m, probe_id, sd)[probe_id].dom().contains(sd.pid),
        store_after_record(m, probe_id, sd)[probe_id][sd.pid] == sd,
        other_id != probe_id ==> (store_after_record(m, probe_id, sd).dom().contains(other_id)
            <==> m.dom().contains(other_id)),
        other_id != probe_id && m.dom().contains(other_id) ==> store_after_record(
            m,
            probe_id,
            sd,
        )[other_id] == m[other_id],
        other_pid != sd.pid && m.dom().contains(probe_id) ==> (store_after_record(
            m,
            probe_id,
            sd,
        )[probe_id].dom().contains(other_pid) <==> m[probe_id].dom().contains(other_pid)),
        other_pid != sd.pid && m.dom().contains(probe_id) && m[probe_id].dom().contains(other_pid)
            ==> store_after_record(m, probe_id, sd)[probe_id][other_pid] == m[probe_id][other_pid],
{
}

/// Recording the same record twice leaves the store as one recording does.
pub proof fn lemma_record_idempotent(
    m: Map<Seq<char>, Map<u16, StreamDataView>>,
    probe_id: Seq<char>,
    sd: StreamDataView,
)
    ensures
        store_after_record(store_after_record(m, probe_id, sd), probe_id, sd) == store_after_record(
            m,
            probe_id,
            sd,
        ),
{
    let once = store_after_record(m, probe_id, sd);
    assert(once[probe_id].insert(sd.pid, sd) =~= once[probe_id]);
    assert(once.insert(probe_id, once[probe_id]) =~= once);
}

// ---------------------------------------------------------------------------
// Per-probe totals sent upstream
// ---------------------------------------------------------------------------

/// What the probe reports upstream for a group of streams: sums of their
/// bitrates, inter-arrival times and continuity errors, the stream count,
/// the source of the last stream, the PTS of the last image, and the
/// concatenated text fields.
pub struct ProbeTotals {
    pub bitrate_avg_sum: u64,
    pub iat_sum: u64,
    pub iat_max_sum: u64,
    pub cc_errors: u64,
    pub cc_errors_current: u64,
    pub stream_count: u64,
    pub source_ip: String,
    pub source_port: u32,
    pub image_pts: u64,
    pub captions: String,
    pub pid_map: String,
    pub scte35: String,
    pub audio_loudness: String,
    pub log_messages: Vec<String>,
}

/// The abstract content of `ProbeTotals`.
pub struct ProbeTotalsView {
    pub bitrate_avg_sum: u64,
    pub iat_sum: u64,
    pub iat_max_sum: u64,
    pub cc_errors: u64,
    pub cc_errors_current: u64,
    pub stream_count: u64,
    pub source_ip: Seq<char>,
    pub source_port: u32,
    pub image_pts: u64,
    pub captions: Seq<char>,
    pub pid_map: Seq<char>,
    pub scte35: Seq<char>,
    pub audio_loudness: Seq<char>,
    pub log_messages: Seq<Seq<char>>,
}

impl View for ProbeTotals {
    type V = ProbeTotalsView;

    open spec fn view(&self) -> ProbeTotalsView {
        ProbeTotalsView {
            bitrate_avg_sum: self.bitrate_avg_sum,
            iat_sum: self.iat_sum,
            iat_max_sum: self.iat_max_sum,
            cc_errors: self.cc_errors,
            cc_errors_current: self.cc_errors_current,
            stream_count: self.stream_count,
            source_ip: self.source_ip@,
            source_port: self.source_port,
            image_pts: self.image_pts,
            captions: self.captions@,
            pid_map: self.pid_map@,
            scte35: self.scte35@,
            audio_loudness: self.audio_loudness@,
            log_messages: self.log_messages@.map_values(|s: String| s@),
        }
    }
}

/// The totals of no stream.
pub open spec fn empty_totals() -> ProbeTotalsView {
    ProbeTotalsView {
        bitrate_avg_sum: 0,
        iat_sum: 0,
        iat_max_sum: 0,
        cc_errors: 0,
        cc_errors_current: 0,
        stream_count: 0,
        source_ip: Seq::empty(),
        source_port: 0,
        image_pts: 0,
        captions: Seq::empty(),
        pid_map: Seq::empty(),
        scte35: Seq::empty(),
        audio_loudness: Seq::empty(),
        log_messages: Seq::empty(),
    }
}

/// The totals after stream `sd` is added: sums wrap at 64 bits.
pub open spec fn add_to_totals(t: ProbeTotalsView, sd: StreamDataView) -> ProbeTotalsView {
    ProbeTotalsView {
        bitrate_avg_sum: t.bitrate_avg_sum.wrapping_add(sd.bitrate_avg as u64),
        iat_sum: t.iat_sum.wrapping_add(sd.capture_iat),
        iat_max_sum: t.iat_max_sum.wrapping_add(sd.capture_iat_max),
        cc_errors: t.cc_errors.wrapping_add(sd.error_count as u64),
        cc_errors_current: t.cc_errors_current.wrapping_add(sd.current_error_count as u64),
        stream_count: t.stream_count.wrapping_add(1),
        source_ip: sd.source_ip,
        source_port: sd.source_port as u32,
        image_pts: if sd.has_image > 0 && sd.image_pts > 0 {
            sd.image_pts
        } else {
            t.image_pts
        },
        captions: t.captions + sd.captions,
        pid_map: t.pid_map + sd.pid_map,
        scte35: t.scte35 + sd.scte35,
        audio_loudness: t.audio_loudness + sd.audio_loudness,
        log_messages: if sd.log_message.len() > 0 {
            t.log_messages.push(sd.log_message)
        } else {
            t.log_messages
        },
    }
}

/// The totals of the streams `s`, taken in order.
pub open spec fn totals_of(s: Seq<StreamDataView>) -> ProbeTotalsView
    decreases s.len(),
{
    if s.len() == 0 {
        empty_totals()
    } else {
        add_to_totals(totals_of(s.drop_last()), s.last())
    }
}

/// The totals of `streams`, taken in order.
pub fn sum_probe_streams(streams: &[StreamData]) -> (r: ProbeTotals)
    ensures
        r@ == totals_of(streams@.map_values(|sd: StreamData| sd@)),
{
    let ghost views = streams@.map_values(|sd: StreamData| sd@);
    let mut t = ProbeTotals {
        bitrate_avg_sum: 0,
        iat_sum: 0,
        iat_max_sum: 0,
        cc_errors: 0,
        cc_errors_current: 0,
        stream_count: 0,
        source_ip: String::new(),
        source_port: 0,
        image_pts: 0,
        captions: String::new(),
        pid_map: String::new(),
        scte35: String::new(),
        audio_loudness: String::new(),
        log_messages: Vec::new(),
    };
    assert(t@.log_messages =~= Seq::<Seq<char>>::empty());
    let mut i: usize = 0;
    while i < streams.len()
        invariant
            i <= streams@.len(),
            views == streams@.map_values(|sd: StreamData| sd@),
            t@ == totals_of(views.take(i as int)),
        decreases streams.len() - i,
    {
        let sd = &streams[i];
        assert(views.take(i + 1).drop_last() =~= views.take(i as int));
        assert(views.take(i + 1).last() == sd@);
        let ghost before = t@;
        t.bitrate_avg_sum = t.bitrate_avg_sum.wrapping_add(sd.bitrate_avg as u64);
        t.iat_sum = t.iat_sum.wrapping_add(sd.capture_iat);
        t.iat_max_sum = t.iat_max_sum.wrapping_add(sd.capture_iat_max);
        t.cc_errors = t.cc_errors.wrapping_add(sd.error_count as u64);
        t.cc_errors_current = t.cc_errors_current.wrapping_add(sd.current_error_count as u64);
        t.source_port = sd.source_port as u32;
        t.source_ip = sd.source_ip.clone();
        if sd.has_image > 0 && sd.image_pts > 0 {
            t.image_pts = sd.image_pts;
        }
        if !sd.log_message.as_str().is_empty() {
            let ghost msgs = t.log_messages@;
            t.log_messages.push(sd.log_message.clone());
            assert(t.log_messages@.map_values(|s: String| s@) =~= msgs.map_values(|s: String| s@).push(
                sd.log_message@,
            ));
        }
        t.captions.append(sd.captions.as_str());
        t.pid_map.append(sd.pid_map.as_str());
        t.scte35.append(sd.scte35.as_str());
        t.audio_loudness.append(sd.audio_loudness.as_str());
        t.stream_count = t.stream_count.wrapping_add(1);
        assert(t@ == add_to_totals(before, sd@));
        i += 1;
    }
    assert(views.take(streams@.len() as int) =~= views);
    t
}

// ---------------------------------------------------------------------------
// Message fields
// ---------------------------------------------------------------------------

/// The standard (RFC 4648, padded) base64 text of `data`, as the `base64`
/// crate's `general_purpose::STANDARD` engine writes it.
pub uninterp spec fn base64_standard(data: Seq<u8>) -> Seq<char>;

/// The length of the padded base64 text of `n` bytes: four characters for
/// each started group of three bytes.
pub open spec fn base64_len(n: nat) -> int {
    n / 3 * 4 + if n % 3 > 0 { 4int } else { 0int }
}

/// Tells whether the base64 text of `n` bytes has a length that fits in
/// `usize`.
pub fn base64_len_fits(n: usize) -> (r: bool)
    ensures
        r == (base64_len(n as nat) <= usize::MAX),
{
    let groups = n / 3;
    match groups.checked_mul(4) {
        None => false,
        Some(full) => if n % 3 > 0 {
            full.checked_add(4).is_some()
        } else {
            true
        },
    }
}

/// Encodes `data` with `base64::engine::general_purpose::STANDARD.encode`.
/// The contract names the text `base64_standard` and states its length; the
/// crate panics when that length does not fit in `usize`, which `requires`
/// rules out.
#[verifier::external_body]
fn base64_encode(data: &[u8]) -> (r: String)
    requires
        base64_len(data@.len()) <= usize::MAX,
    ensures
        r@ == base64_standard(data@),
        r@.len() == base64_len(data@.len()),
{
    general_purpose::STANDARD.encode(data)
}

/// Whether a record carries an image: a non-empty packet that holds one.
pub open spec fn carries_image(sd: StreamDataView) -> bool {
    sd.packet_len > 0 && sd.has_image > 0
}

/// The base64 text of the image a record carries (its whole packet
/// buffer), or `None` when it carries none.
pub fn image_base64(sd: &StreamData) -> (r: Option<String>)
    requires
        carries_image(sd@) ==> base64_len(sd@.packet.len()) <= usize::MAX,
    ensures
        r is Some <==> carries_image(sd@),
        r matches Some(t) ==> t@ == base64_standard(sd@.packet),
{
    if sd.packet_len > 0 && sd.has_image > 0 {
        let bytes = packet_bytes(&sd.packet);
        Some(base64_encode(bytes))
    } else {
        None
    }
}

/// The fields of a probe's message that do not come from its streams alone.
pub struct MessageFields {
    pub force_send: bool,
    pub base64_image: String,
    pub log_message: String,
}

/// The log messages waiting to be sent, after those of `totals` are queued.
pub open spec fn queued_logs(pending: Seq<Seq<char>>, totals: ProbeTotalsView) -> Seq<Seq<char>> {
    pending + totals.log_messages
}

/// Prepares the message fields of a probe from its totals, the base64 text
/// of the last image (empty when none) and the queue of log messages: the
/// probe's log messages are queued, and the newest queued one is taken out
/// for this message. The message must be sent at once when it carries
/// captions, an image or a log message.
pub fn message_fields(totals: &ProbeTotals, image: &String, pending_logs: &mut Vec<String>) -> (r:
    MessageFields)
    ensures
        ({
            let q = queued_logs(old(pending_logs)@.map_values(|s: String| s@), totals@);
            &&& r.force_send == (totals@.captions.len() > 0 || image@.len() > 0 || q.len() > 0)
            &&& r.base64_image@ == if image@.len() > 0 {
                "data:image/jpeg;base64,"@ + image@
            } else {
                Seq::empty()
            }
            &&& if q.len() > 0 {
                &&& r.log_message@ == q.last()
                &&& final(pending_logs)@.map_values(|s: String| s@) == q.drop_last()
            } else {
                &&& r.log_message@ == Seq::<char>::empty()
                &&& final(pending_logs)@.len() == 0
            }
        }),
{
    let ghost p0 = pending_logs@.map_values(|s: String| s@);
    let mut i: usize = 0;
    while i < totals.log_messages.len()
        invariant
            i <= totals@.log_messages.len(),
            totals@.log_messages == totals.log_messages@.map_values(|s: String| s@),
            pending_logs@.map_values(|s: String| s@) == p0 + totals@.log_messages.take(i as int),
        decreases totals.log_messages.len() - i,
    {
        let ghost before = pending_logs@;
        pending_logs.push(totals.log_messages[i].clone());
        assert(pending_logs@.map_values(|s: String| s@) =~= before.map_values(|s: String| s@).push(
            totals@.log_messages[i as int],
        ));
        assert(totals@.log_messages.take(i + 1) =~= totals@.log_messages.take(i as int).push(
            totals@.log_messages[i as int],
        ));
        i += 1;
    }
    assert(totals@.log_messages.take(i as int) =~= totals@.log_messages);
    let mut force_send = totals.captions.as_str().unicode_len() > 0;
    let base64_image = if image.as_str().unicode_len() > 0 {
        force_send = true;
        let mut tag = String::from_str("data:image/jpeg;base64,");
        tag.append(image.as_str());
        tag
    } else {
        String::new()
    };
    let ghost q = pending_logs@.map_values(|s: String| s@);
    let log_message = match pending_logs.pop() {
        Some(m) => {
            force_send = true;
            assert(pending_logs@.map_values(|s: String| s@) =~= q.drop_last());
            m
        },
        None => String::new(),
    };
    MessageFields { force_send, base64_image, log_message }
}

/// Whether the messages are due: forced, or at least `interval_ms`
/// milliseconds after the last sending.
pub fn publish_due(force_send: bool, elapsed_ms: u128, interval_ms: u64) -> (r: bool)
    ensures
        r == (force_send || elapsed_ms >= interval_ms),
{
    force_send || elapsed_ms >= interval_ms as u128
}

/// The Kafka topic name for `topic`: each ':' and '.' becomes '_'.
pub open spec fn topic_name_of(topic: Seq<char>) -> Seq<char> {
    topic.map_values(|c: char| if c == ':' || c == '.' { '_' } else { c })
}

/// The Kafka topic name for `topic`: each ':' and '.' becomes '_'.
pub fn kafka_topic_name(topic: &str) -> (r: String)
    ensures
        r@ == topic_name_of(topic@),
{
    let n = topic.unicode_len();
    let mut out = String::new();
    let mut i: usize = 0;
    proof {
        reveal_strlit("_");
    }
    while i < n
        invariant
            i <= n,
            n == topic@.len(),
            "_"@ == seq!['_'],
            out@ == topic_name_of(topic@.take(i as int)),
        decreases n - i,
    {
        let c = topic.get_char(i);
        if c == ':' || c == '.' {
            out.append("_");
        } else {
            out.append(topic.substring_char(i, i + 1));
        }
        assert(topic@.take(i + 1) =~= topic@.take(i as int).push(c));
        assert(topic@.subrange(i as int, i + 1) =~= seq![c]);
        assert(out@ =~= topic_name_of(topic@.take(i + 1)));
        i += 1;
    }
    assert(topic@.take(n as int) =~= topic@);
    out
}

/// Every stream is counted once: the totals of `s` count `s.len()` streams
/// (while that fits in 64 bits), and their captions are those of the
/// streams, concatenated in order.
pub proof fn lemma_totals_count(s: Seq<StreamDataView>)
    requires
        s.len() <= u64::MAX,
    ensures
        totals_of(s).stream_count == s.len(),
        totals_of(s).captions == s.map_values(|sd: StreamDataView| sd.captions).flatten(),
    decreases s.len(),
{
    if s.len() > 0 {
        lemma_totals_count(s.drop_last());
        let caps = s.map_values(|sd: StreamDataView| sd.captions);
        assert(caps.drop_last() =~= s.drop_last().map_values(|sd: StreamDataView| sd.captions));
        caps.drop_last().lemma_flatten_push(caps.last());
        assert(caps.drop_last().push(caps.last()) =~= caps);
    } else {
        assert(s.map_values(|sd: StreamDataView| sd.captions) =~= Seq::<Seq<char>>::empty());
    }
}

/// Renaming a topic removes every ':' and '.', and renaming it again changes
/// nothing.
pub proof fn lemma_topic_name_idempotent(topic: Seq<char>)
    ensures
        !topic_name_of(topic).contains(':'),
        !topic_name_of(topic).contains('.'),
        topic_name_of(topic_name_of(topic)) == topic_name_of(topic),
{
    assert(topic_name_of(topic_name_of(topic)) =~= topic_name_of(topic));
}

// ---------------------------------------------------------------------------
// Published fields of a stream
// ---------------------------------------------------------------------------

/// The value of a published field: a number or a text.
pub enum FieldValue {
    Number(u64),
    Text(String),
}

/// The abstract content of a `FieldValue`.
pub enum FieldValueView {
    Number(u64),
    Text(Seq<char>),
}

impl View for FieldValue {
    type V = FieldValueView;

    open spec fn view(&self) -> FieldValueView {
        match self {
            FieldValue::Number(n) => FieldValueView::Number(*n),
            FieldValue::Text(t) => FieldValueView::Text(t@),
        }
    }
}

/// The abstract content of a list of published fields.
pub open spec fn fields_view(v: Seq<(String, FieldValue)>) -> Seq<(Seq<char>, FieldValueView)> {
    v.map_values(|f: (String, FieldValue)| (f.0@, f.1@))
}

/// The key prefix of the fields of stream `pid`: "streams.<pid>.".
pub open spec fn stream_prefix_of(pid: u16) -> Seq<char> {
    "streams."@ + decimal_of(pid as nat) + "."@
}

/// The fields published for a stream record, under keys
/// "streams.<pid>.<name>": its identity, statistics, timing, RTP fields,
/// image, log message, probe id and captions. The PID keeps exactly one
/// record, which `packet_count` reports.
pub open spec fn stream_fields_of(sd: StreamDataView) -> Seq<(Seq<char>, FieldValueView)> {
    let p = stream_prefix_of(sd.pid);
    Seq::empty()
        .push((p + "stream_type"@, FieldValueView::Text(sd.stream_type)))
        .push((p + "program_number"@, FieldValueView::Number(sd.program_number as u64)))
        .push((p + "pmt_pid"@, FieldValueView::Number(sd.pmt_pid as u64)))
        .push((p + "bitrate_avg"@, FieldValueView::Number(sd.bitrate_avg as u64)))
        .push((p + "iat_avg"@, FieldValueView::Number(sd.iat_avg as u64)))
        .push((p + "packet_count"@, FieldValueView::Number(1)))
        .push((p + "pid"@, FieldValueView::Number(sd.pid as u64)))
        .push((p + "continuity_counter"@, FieldValueView::Number(sd.continuity_counter as u64)))
        .push((p + "timestamp"@, FieldValueView::Number(sd.timestamp as u64)))
        .push((p + "bitrate"@, FieldValueView::Number(sd.bitrate as u64)))
        .push((p + "bitrate_max"@, FieldValueView::Number(sd.bitrate_max as u64)))
        .push((p + "bitrate_min"@, FieldValueView::Number(sd.bitrate_min as u64)))
        .push((p + "iat"@, FieldValueView::Number(sd.iat as u64)))
        .push((p + "iat_max"@, FieldValueView::Number(sd.iat_max as u64)))
        .push((p + "iat_min"@, FieldValueView::Number(sd.iat_min as u64)))
        .push((p + "error_count"@, FieldValueView::Number(sd.error_count as u64)))
        .push((p + "current_error_count"@, FieldValueView::Number(sd.current_error_count as u64)))
        .push((p + "last_arrival_time"@, FieldValueView::Number(sd.last_arrival_time as u64)))
        .push((p + "last_sample_time"@, FieldValueView::Number(sd.last_sample_time as u64)))
        .push((p + "start_time"@, FieldValueView::Number(sd.start_time as u64)))
        .push((p + "total_bits"@, FieldValueView::Number(sd.total_bits as u64)))
        .push((p + "total_bits_sample"@, FieldValueView::Number(sd.total_bits_sample as u64)))
        .push((p + "count"@, FieldValueView::Number(sd.count as u64)))
        .push((p + "packet_start"@, FieldValueView::Number(sd.packet_start as u64)))
        .push((p + "packet_len"@, FieldValueView::Number(sd.packet_len as u64)))
        .push((p + "rtp_timestamp"@, FieldValueView::Number(sd.rtp_timestamp as u64)))
        .push((p + "rtp_payload_type"@, FieldValueView::Number(sd.rtp_payload_type as u64)))
        .push((p + "rtp_payload_type_name"@, FieldValueView::Text(sd.rtp_payload_type_name)))
        .push((p + "rtp_line_number"@, FieldValueView::Number(sd.rtp_line_number as u64)))
        .push((p + "rtp_line_offset"@, FieldValueView::Number(sd.rtp_line_offset as u64)))
        .push((p + "rtp_line_length"@, FieldValueView::Number(sd.rtp_line_length as u64)))
        .push((p + "rtp_field_id"@, FieldValueView::Number(sd.rtp_field_id as u64)))
        .push((p + "rtp_line_continuation"@, FieldValueView::Number(sd.rtp_line_continuation as u64)))
        .push((p + "rtp_extended_sequence_number"@, FieldValueView::Number(sd.rtp_extended_sequence_number as u64)))
        .push((p + "stream_type_number"@, FieldValueView::Number(sd.stream_type_number as u64)))
        .push((p + "capture_time"@, FieldValueView::Number(sd.capture_time as u64)))
        .push((p + "capture_iat"@, FieldValueView::Number(sd.capture_iat as u64)))
        .push((p + "capture_iat_max"@, FieldValueView::Number(sd.capture_iat_max as u64)))
        .push((p + "has_image"@, FieldValueView::Number(sd.has_image as u64)))
        .push((p + "image_pts"@, FieldValueView::Number(sd.image_pts as u64)))
        .push((p + "log_message"@, FieldValueView::Text(sd.log_message)))
        .push((p + "id"@, FieldValueView::Text(sd.probe_id)))
        .push((p + "captions"@, FieldValueView::Text(sd.captions)))
}

/// Appends the field `prefix` + `name` with `value`.
fn push_field(out: &mut Vec<(String, FieldValue)>, prefix: &String, name: &str, value: FieldValue)
    ensures
        fields_view(final(out)@) == fields_view(old(out)@).push((prefix@ + name@, value@)),
{
    let mut key = prefix.clone();
    key.append(name);
    let ghost before = out@;
    out.push((key, value));
    assert(fields_view(out@) =~= fields_view(before).push((prefix@ + name@, value@)));
}

/// The fields published for a stream record (see `stream_fields_of`).
pub fn stream_fields(sd: &StreamData) -> (r: Vec<(String, FieldValue)>)
    ensures
        fields_view(r@) == stream_fields_of(sd@),
{
    let mut prefix = String::from_str("streams.");
    prefix.append(decimal_text(sd.pid as u64).as_str());
    prefix.append(".");
    assert(prefix@ == stream_prefix_of(sd.pid));
    let mut out: Vec<(String, FieldValue)> = Vec::new();
    assert(fields_view(out@) =~= Seq::<(Seq<char>, FieldValueView)>::empty());
    push_field(&mut out, &prefix, "stream_type", FieldValue::Text(sd.stream_type.clone()));
    push_field(&mut out, &prefix, "program_number", FieldValue::Number(sd.program_number as u64));
    push_field(&mut out, &prefix, "pmt_pid", FieldValue::Number(sd.pmt_pid as u64));
    push_field(&mut out, &prefix, "bitrate_avg", FieldValue::Number(sd.bitrate_avg as u64));
    push_field(&mut out, &prefix, "iat_avg", FieldValue::Number(sd.iat_avg as u64));
    push_field(&mut out, &prefix, "packet_count", FieldValue::Number(1));
    push_field(&mut out, &prefix, "pid", FieldValue::Number(sd.pid as u64));
    push_field(&mut out, &prefix, "continuity_counter", FieldValue::Number(sd.continuity_counter as u64));
    push_field(&mut out, &prefix, "timestamp", FieldValue::Number(sd.timestamp as u64));
    push_field(&mut out, &prefix, "bitrate", FieldValue::Number(sd.bitrate as u64));
    push_field(&mut out, &prefix, "bitrate_max", FieldValue::Number(sd.bitrate_max as u64));
    push_field(&mut out, &prefix, "bitrate_min", FieldValue::Number(sd.bitrate_min as u64));
    push_field(&mut out, &prefix, "iat", FieldValue::Number(sd.iat as u64));
    push_field(&mut out, &prefix, "iat_max", FieldValue::Number(sd.iat_max as u64));
    push_field(&mut out, &prefix, "iat_min", FieldValue::Number(sd.iat_min as u64));
    push_field(&mut out, &prefix, "error_count", FieldValue::Number(sd.error_count as u64));
    push_field(&mut out, &prefix, "current_error_count", FieldValue::Number(sd.current_error_count as u64));
    push_field(&mut out, &prefix, "last_arrival_time", FieldValue::Number(sd.last_arrival_time as u64));
    push_field(&mut out, &prefix, "last_sample_time", FieldValue::Number(sd.last_sample_time as u64));
    push_field(&mut out, &prefix, "start_time", FieldValue::Number(sd.start_time as u64));
    push_field(&mut out, &prefix, "total_bits", FieldValue::Number(sd.total_bits as u64));
    push_field(&mut out, &prefix, "total_bits_sample", FieldValue::Number(sd.total_bits_sample as u64));
    push_field(&mut out, &prefix, "count", FieldValue::Number(sd.count as u64));
    push_field(&mut out, &prefix, "packet_start", FieldValue::Number(sd.packet_start as u64));
    push_field(&mut out, &prefix, "packet_len", FieldValue::Number(sd.packet_len as u64));
    push_field(&mut out, &prefix, "rtp_timestamp", FieldValue::Number(sd.rtp_timestamp as u64));
    push_field(&mut out, &prefix, "rtp_payload_type", FieldValue::Number(sd.rtp_payload_type as u64));
    push_field(&mut out, &prefix, "rtp_payload_type_name", FieldValue::Text(sd.rtp_payload_type_name.clone()));
    push_field(&mut out, &prefix, "rtp_line_number", FieldValue::Number(sd.rtp_line_number as u64));
    push_field(&mut out, &prefix, "rtp_line_offset", FieldValue::Number(sd.rtp_line_offset as u64));
    push_field(&mut out, &prefix, "rtp_line_length", FieldValue::Number(sd.rtp_line_length as u64));
    push_field(&mut out, &prefix, "rtp_field_id", FieldValue::Number(sd.rtp_field_id as u64));
    push_field(&mut out, &prefix, "rtp_line_continuation", FieldValue::Number(sd.rtp_line_continuation as u64));
    push_field(&mut out, &prefix, "rtp_extended_sequence_number", FieldValue::Number(sd.rtp_extended_sequence_number as u64));
    push_field(&mut out, &prefix, "stream_type_number", FieldValue::Number(sd.stream_type_number as u64));
    push_field(&mut out, &prefix, "capture_time", FieldValue::Number(sd.capture_time as u64));
    push_field(&mut out, &prefix, "capture_iat", FieldValue::Number(sd.capture_iat as u64));
    push_field(&mut out, &prefix, "capture_iat_max", FieldValue::Number(sd.capture_iat_max as u64));
    push_field(&mut out, &prefix, "has_image", FieldValue::Number(sd.has_image as u64));
    push_field(&mut out, &prefix, "image_pts", FieldValue::Number(sd.image_pts as u64));
    push_field(&mut out, &prefix, "log_message", FieldValue::Text(sd.log_message.clone()));
    push_field(&mut out, &prefix, "id", FieldValue::Text(sd.probe_id.clone()));
    push_field(&mut out, &prefix, "captions", FieldValue::Text(sd.captions.clone()));
    out
}

} // verus!
