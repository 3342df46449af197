# rsprobe

MPEG transport-stream analysis for a network probe: splitting captured UDP
datagrams into 188-byte packets, decoding the PAT and PMT tables, keeping
per-PID statistics (bitrate, inter-arrival times, continuity), running the
TR 101 290 priority 1 and 2 checks, and preparing the statistics that the
probe publishes to Kafka.

The library under `src/` is written in Verus: its functions carry
`requires`/`ensures` contracts that Verus proves, and the `lemma_*` proof
functions state properties that span several calls. The few calls into
outside crates and std (hash maps, CRC-32, base64, the clock, shared
buffers) go through small trusted wrappers whose contracts are not proved
but stated from those crates' documentation and source.

- `psi.rs`: PID, PCR, PAT, PMT and descriptor parsing.
- `stream_data.rs`: the per-stream record, its statistics and the window of
  capture inter-arrival times.
- `streams.rs`: the PID map, datagram splitting and per-packet processing.
- `tr101290.rs`: the TR 101 290 checks (CRC-32 through the `crc` crate).
- `probe.rs`: capture settings, the followed video stream, and the
  processing of one stream record by the probe.
- `reporting.rs`: the latest record of each stream of each probe, the
  per-probe totals and the fields of the published messages.
- `text.rs`: the texts the probe builds (capture filter, probe id, image
  file names).
- `pid_map.rs`, `crc32.rs`, `clock.rs`: the hash map, checksum and clock
  the library calls through trusted wrappers.

`app/` is the probe program itself: command line, packet capture with
`pcap`, Kafka publishing with `rdkafka`, host statistics with `sysinfo`, and
the JSON rendering of the statistics.
