use base64::engine::general_purpose;
use base64::Engine;
use rsprobe::pid_map::pid_map_get;
use rsprobe::reporting::{
    image_base64, kafka_topic_name, message_fields, probe_store_get, probe_store_ids,
    probe_store_new, publish_due, record_stream, streams_of, sum_probe_streams,
};
use rsprobe::reporting::{stream_fields, FieldValue};
use rsprobe::stream_data::StreamData;
use std::sync::Arc;

fn stream(pid: u16, bitrate_avg: u32, error_count: u32) -> StreamData {
    let mut sd = StreamData::new(
        Arc::new(vec![0x47u8; 188]),
        0,
        188,
        pid,
        "video".to_string(),
        0x1B,
        1,
        0,
        0,
        0,
        1_000,
        4,
        "239.1.1.1".to_string(),
        1234,
        "probe".to_string(),
    );
    sd.bitrate_avg = bitrate_avg;
    sd.error_count = error_count;
    sd
}

#[test]
fn recorded_streams_are_kept_per_probe_and_pid() {
    let mut store = probe_store_new();
    let a = "probe-a".to_string();
    let b = "probe-b".to_string();
    record_stream(&mut store, &a, stream(0x100, 10, 0));
    record_stream(&mut store, &a, stream(0x101, 20, 0));
    record_stream(&mut store, &b, stream(0x100, 30, 0));
    // A newer record replaces the one of the same PID.
    record_stream(&mut store, &a, stream(0x100, 40, 1));

    let groups_a = probe_store_get(&store, &a).unwrap();
    assert_eq!(pid_map_get(groups_a, 0x100).unwrap().bitrate_avg, 40);
    assert_eq!(pid_map_get(groups_a, 0x101).unwrap().bitrate_avg, 20);
    let groups_b = probe_store_get(&store, &b).unwrap();
    assert_eq!(pid_map_get(groups_b, 0x100).unwrap().bitrate_avg, 30);
    assert!(probe_store_get(&store, &"probe-c".to_string()).is_none());

    let mut ids = probe_store_ids(&store);
    ids.sort();
    assert_eq!(ids, vec![a.clone(), b.clone()]);

    let mut pids: Vec<u16> = streams_of(groups_a).iter().map(|sd| sd.pid).collect();
    pids.sort();
    assert_eq!(pids, vec![0x100, 0x101]);
}

#[test]
fn totals_sum_the_streams() {
    let mut s1 = stream(0x100, 1_000, 2);
    s1.capture_iat = 3;
    s1.capture_iat_max = 7;
    s1.current_error_count = 1;
    s1.captions = "Hello ".to_string();
    s1.log_message = "first".to_string();
    s1.has_image = 1;
    s1.image_pts = 900;
    let mut s2 = stream(0x101, 500, 1);
    s2.capture_iat = 5;
    s2.capture_iat_max = 9;
    s2.captions = "world".to_string();
    s2.source_ip = "239.2.2.2".to_string();
    s2.source_port = 5000;
    s2.pid_map = "map".to_string();
    let t = sum_probe_streams(&[s1, s2]);
    assert_eq!(t.bitrate_avg_sum, 1_500);
    assert_eq!(t.iat_sum, 8);
    assert_eq!(t.iat_max_sum, 16);
    assert_eq!(t.cc_errors, 3);
    assert_eq!(t.cc_errors_current, 1);
    assert_eq!(t.stream_count, 2);
    assert_eq!(t.source_ip, "239.2.2.2");
    assert_eq!(t.source_port, 5000);
    assert_eq!(t.image_pts, 900);
    assert_eq!(t.captions, "Hello world");
    assert_eq!(t.pid_map, "map");
    assert_eq!(t.log_messages, vec!["first".to_string()]);

    let none = sum_probe_streams(&[]);
    assert_eq!(none.stream_count, 0);
    assert_eq!(none.captions, "");
    assert!(none.log_messages.is_empty());
}

#[test]
fn message_fields_take_newest_log_and_force_sending() {
    let mut s1 = stream(0x100, 1, 0);
    s1.log_message = "a".to_string();
    let mut s2 = stream(0x101, 1, 0);
    s2.log_message = "b".to_string();
    let totals = sum_probe_streams(&[s1, s2]);
    let mut pending = vec!["old".to_string()];
    let f = message_fields(&totals, &String::new(), &mut pending);
    assert!(f.force_send);
    assert_eq!(f.log_message, "b");
    assert_eq!(pending, vec!["old".to_string(), "a".to_string()]);
    assert_eq!(f.base64_image, "");

    let quiet = sum_probe_streams(&[stream(0x100, 1, 0)]);
    let mut empty: Vec<String> = Vec::new();
    let f = message_fields(&quiet, &String::new(), &mut empty);
    assert!(!f.force_send);
    assert_eq!(f.log_message, "");

    let f = message_fields(&quiet, &"AQID".to_string(), &mut empty);
    assert!(f.force_send);
    assert_eq!(f.base64_image, "data:image/jpeg;base64,AQID");

    let mut captioned = stream(0x100, 1, 0);
    captioned.captions = "cc".to_string();
    let f = message_fields(&sum_probe_streams(&[captioned]), &String::new(), &mut empty);
    assert!(f.force_send);
}

#[test]
fn images_are_encoded_in_base64() {
    let mut sd = stream(0x100, 1, 0);
    assert_eq!(image_base64(&sd), None);
    sd.packet = Arc::new(vec![1, 2, 3, 4]);
    sd.packet_start = 0;
    sd.packet_len = 4;
    sd.has_image = 4;
    let text = image_base64(&sd).unwrap();
    assert_eq!(text, "AQIDBA==");
    assert_eq!(text, general_purpose::STANDARD.encode([1u8, 2, 3, 4]));
    sd.packet_len = 0;
    assert_eq!(image_base64(&sd), None);
}

#[test]
fn publishing_is_due_when_forced_or_late() {
    assert!(publish_due(true, 0, 1000));
    assert!(publish_due(false, 1000, 1000));
    assert!(!publish_due(false, 999, 1000));
}

#[test]
fn topic_names_replace_separators() {
    assert_eq!(kafka_topic_name("probe:1.stats"), "probe_1_stats");
    assert_eq!(kafka_topic_name("plain"), "plain");
    assert_eq!(kafka_topic_name(""), "");
    assert_eq!(kafka_topic_name("é:ü"), "é_ü");
}

#[test]
fn topic_renaming_twice_is_renaming_once() {
    for topic in ["a:b.c", "..::", "plain", "x.y:z_w"] {
        let once = kafka_topic_name(topic);
        assert!(!once.contains(':') && !once.contains('.'));
        assert_eq!(kafka_topic_name(&once), once);
    }
}

#[test]
fn recording_twice_is_recording_once() {
    let mut store = probe_store_new();
    let id = "p".to_string();
    record_stream(&mut store, &id, stream(0x100, 10, 0));
    record_stream(&mut store, &id, stream(0x100, 10, 0));
    let groups = probe_store_get(&store, &id).unwrap();
    assert_eq!(streams_of(groups).len(), 1);
    assert_eq!(pid_map_get(groups, 0x100).unwrap().bitrate_avg, 10);
}

#[test]
fn stream_fields_are_keyed_by_pid() {
    let mut sd = stream(0x101, 1500, 2);
    sd.captions = "cc".to_string();
    let fields = stream_fields(&sd);
    assert_eq!(fields.len(), 43);
    assert_eq!(fields[0].0, "streams.257.stream_type");
    assert!(matches!(&fields[0].1, FieldValue::Text(t) if t == "video"));
    let find = |k: &str| fields.iter().find(|(key, _)| key == k).map(|(_, v)| v);
    assert!(matches!(find("streams.257.bitrate_avg"), Some(FieldValue::Number(1500))));
    assert!(matches!(find("streams.257.error_count"), Some(FieldValue::Number(2))));
    assert!(matches!(find("streams.257.packet_count"), Some(FieldValue::Number(1))));
    assert!(matches!(find("streams.257.pid"), Some(FieldValue::Number(257))));
    assert!(matches!(find("streams.257.id"), Some(FieldValue::Text(t)) if t == "probe"));
    assert!(matches!(find("streams.257.captions"), Some(FieldValue::Text(t)) if t == "cc"));
    assert!(find("streams.257.source_ip").is_none());
    let mut keys: Vec<&String> = fields.iter().map(|(k, _)| k).collect();
    keys.sort();
    keys.dedup();
    assert_eq!(keys.len(), 43);
}
