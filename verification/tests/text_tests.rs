use rsprobe::text::{
    capture_filter, decimal_text, default_probe_id, image_file_name, zero_padded_text,
};

#[test]
fn decimal_texts() {
    assert_eq!(decimal_text(0), "0");
    assert_eq!(decimal_text(7), "7");
    assert_eq!(decimal_text(10), "10");
    assert_eq!(decimal_text(10_000), "10000");
    assert_eq!(decimal_text(u64::MAX), u64::MAX.to_string());
}

#[test]
fn zero_padded_texts() {
    assert_eq!(zero_padded_text(0, 8), "00000000");
    assert_eq!(zero_padded_text(42, 8), "00000042");
    assert_eq!(zero_padded_text(123_456_789, 8), "123456789");
    assert_eq!(zero_padded_text(5, 0), "5");
    assert_eq!(zero_padded_text(4_294_967_295, 8), format!("{:08}", 4_294_967_295u64));
}

#[test]
fn capture_filter_text() {
    assert_eq!(
        capture_filter("udp", 10_000, "224.0.0.200"),
        "udp dst port 10000 and ip dst host 224.0.0.200"
    );
    assert_eq!(capture_filter("tcp", -1, "::"), "tcp dst port -1 and ip dst host ::");
    assert_eq!(
        capture_filter("udp", i32::MIN, "x"),
        format!("udp dst port {} and ip dst host x", i32::MIN)
    );
}

#[test]
fn default_probe_id_text() {
    assert_eq!(default_probe_id("host", "224.0.0.200", 10_000), "host:224.0.0.200:10000");
    assert_eq!(default_probe_id("", "", 0), "::0");
}

#[test]
fn image_file_names() {
    assert_eq!(image_file_name("out.jpg", 0), "out_00000000.jpg");
    assert_eq!(image_file_name("out", 12), "out_00000012.jpg");
    assert_eq!(image_file_name("a.jpg.jpgb.jpg", 3), "ab_00000003.jpg");
    assert_eq!(image_file_name("..jpgg", 1), ".g_00000001.jpg");
    assert_eq!(image_file_name("", 1), "_00000001.jpg");
    assert_eq!(
        image_file_name("dir/x.jpgé", 99),
        format!("{}_{:08}.jpg", "dir/x.jpgé".replace(".jpg", ""), 99)
    );
}
