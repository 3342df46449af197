use vstd::prelude::*;
use ahash::AHashMap;
use crate::stream_data::{StreamData, StreamDataView};

verus! {

/// Declares `ahash::AHashMap` to Verus; its content is only reached
/// through the functions below.
#[verifier::external_type_specification]
#[verifier::external_body]
#[verifier::reject_recursive_types(K)]
#[verifier::reject_recursive_types(V)]
#[verifier::reject_recursive_types(S)]
pub struct ExAHashMap<K, V, S>(AHashMap<K, V, S>);

/// Declares `ahash::RandomState`, the hasher of `AHashMap`.
#[verifier::external_type_specification]
#[verifier::external_body]
pub struct ExRandomState(ahash::RandomState);

/// What a hash map from PID to stream record holds: the content of the
/// record of each PID that has one.
pub uninterp spec fn stream_table_entries(m: AHashMap<u16, StreamData>) -> Map<u16, StreamDataView>;

/// `AHashMap::new`: an empty map.
#[verifier::external_body]
fn table_new() -> (r: AHashMap<u16, StreamData>)
    ensures
        stream_table_entries(r) =~= Map::empty(),
{
    AHashMap::new()
}

/// `AHashMap::get`: the value held for `pid`, if any.
#[verifier::external_body]
fn table_get(m: &AHashMap<u16, StreamData>, pid: u16) -> (r: Option<&StreamData>)
    ensures
        stream_table_entries(*m).dom().contains(pid) <==> r is Some,
        r matches Some(v) ==> v@ == stream_table_entries(*m)[pid],
{
    m.get(&pid)
}

/// `HashMap::contains_key` (through `AHashMap`'s `Deref`).
#[verifier::external_body]
fn table_contains(m: &AHashMap<u16, StreamData>, pid: u16) -> (r: bool)
    ensures
        r == stream_table_entries(*m).dom().contains(pid),
{
    m.contains_key(&pid)
}

/// `AHashMap::insert`: `pid` now maps to `sd`; the displaced value is dropped.
#[verifier::external_body]
fn table_insert(m: &mut AHashMap<u16, StreamData>, pid: u16, sd: StreamData)
    ensures
        stream_table_entries(*final(m)) == stream_table_entries(*old(m)).insert(pid, sd@),
{
    m.insert(pid, sd);
}

/// `AHashMap::remove`: `pid` no longer maps to anything; the value it had
/// is handed back.
#[verifier::external_body]
fn table_remove(m: &mut AHashMap<u16, StreamData>, pid: u16) -> (r: Option<StreamData>)
    ensures
        stream_table_entries(*final(m)) == stream_table_entries(*old(m)).remove(pid),
        stream_table_entries(*old(m)).dom().contains(pid) <==> r is Some,
        r matches Some(v) ==> v@ == stream_table_entries(*old(m))[pid],
{
    m.remove(&pid)
}

/// The PIDs of the map (`HashMap::keys`, through `Deref`), each once, in the
/// map's own arbitrary order.
#[verifier::external_body]
fn table_pids(m: &AHashMap<u16, StreamData>) -> (r: Vec<u16>)
    ensures
        r@.no_duplicates(),
        forall|pid: u16| r@.contains(pid) <==> stream_table_entries(*m).dom().contains(pid),
{
    m.keys().copied().collect()
}

/// `AHashMap::clone`: a map with the same entries; each value is copied by
/// `StreamData::clone`, which keeps it equal (proved there).
#[verifier::external_body]
fn table_clone(m: &AHashMap<u16, StreamData>) -> (r: AHashMap<u16, StreamData>)
    ensures
        stream_table_entries(r) == stream_table_entries(*m),
{
    m.clone()
}

/// The map from PID to the statistics of that elementary stream.
pub struct PidMap {
    streams: AHashMap<u16, StreamData>,
}

impl View for PidMap {
    type V = Map<u16, StreamDataView>;

    closed spec fn view(&self) -> Map<u16, StreamDataView> {
        stream_table_entries(self.streams)
    }
}

/// What a PID map holds: the record of each PID that has one.
pub open spec fn pid_map_entries(m: PidMap) -> Map<u16, StreamDataView> {
    m@
}

/// An empty PID map.
pub fn pid_map_new() -> (r: PidMap)
    ensures
        pid_map_entries(r) =~= Map::empty(),
{
    PidMap { streams: table_new() }
}

/// The record of `pid`, if any.
pub fn pid_map_get(m: &PidMap, pid: u16) -> (r: Option<&StreamData>)
    ensures
        pid_map_entries(*m).dom().contains(pid) <==> r is Some,
        r matches Some(v) ==> v@ == pid_map_entries(*m)[pid],
{
    table_get(&m.streams, pid)
}

/// Whether `pid` has a record.
pub fn pid_map_contains(m: &PidMap, pid: u16) -> (r: bool)
    ensures
        r == pid_map_entries(*m).dom().contains(pid),
{
    table_contains(&m.streams, pid)
}

/// Makes `sd` the record of `pid`.
pub fn pid_map_insert(m: &mut PidMap, pid: u16, sd: StreamData)
    ensures
        pid_map_entries(*final(m)) == pid_map_entries(*old(m)).insert(pid, sd@),
{
    table_insert(&mut m.streams, pid, sd);
}

/// Takes out the record of `pid`, handing it back.
pub fn pid_map_remove(m: &mut PidMap, pid: u16) -> (r: Option<StreamData>)
    ensures
        pid_map_entries(*final(m)) == pid_map_entries(*old(m)).remove(pid),
        pid_map_entries(*old(m)).dom().contains(pid) <==> r is Some,
        r matches Some(v) ==> v@ == pid_map_entries(*old(m))[pid],
{
    table_remove(&mut m.streams, pid)
}

/// The PIDs that have a record, each once, in the map's own order.
pub fn pid_map_pids(m: &PidMap) -> (r: Vec<u16>)
    ensures
        r@.no_duplicates(),
        forall|pid: u16| r@.contains(pid) <==> pid_map_entries(*m).dom().contains(pid),
{
    table_pids(&m.streams)
}

/// A map with the same records.
pub fn pid_map_clone(m: &PidMap) -> (r: PidMap)
    ensures
        pid_map_entries(r) == pid_map_entries(*m),
{
    PidMap { streams: table_clone(&m.streams) }
}

} // verus!
