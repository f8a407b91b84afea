use assetlab::keys::{
    job_id_from_queue_key, queue_key, quality_url, raw_upload_key, s3_uri, status_key, video_prefix,
};
use assetlab::text::{after_last_sep, split_chars, str_eq, strip_prefix, strip_suffix, trim_whitespace};

#[test]
fn strip_prefix_and_suffix() {
    assert_eq!(strip_prefix("queue/abc", "queue/"), Some("abc".to_string()));
    assert_eq!(strip_prefix("queue", "queue/"), None);
    assert_eq!(strip_prefix("uploads/abc", "queue/"), None);
    assert_eq!(strip_suffix("720p.mp4", ".mp4"), Some("720p".to_string()));
    assert_eq!(strip_suffix("status.json", ".mp4"), None);
    assert_eq!(strip_suffix(".mp4", ".mp4"), Some(String::new()));
}

#[test]
fn split_and_last_segment() {
    assert_eq!(split_chars("a,,b", ','), vec!["a".to_string(), String::new(), "b".to_string()]);
    assert_eq!(split_chars("", ','), vec![String::new()]);
    assert_eq!(split_chars("x,", ','), vec!["x".to_string(), String::new()]);
    assert_eq!(after_last_sep("videos/id/720p.mp4", '/'), "720p.mp4");
    assert_eq!(after_last_sep("plain", '/'), "plain");
    assert_eq!(after_last_sep("dir/", '/'), "");
}

#[test]
fn trim_matches_std() {
    for s in ["  a b  ", "\t\nx\r\n", "", "   ", "\u{a0}é\u{3000}", "no-space"] {
        assert_eq!(trim_whitespace(s), s.trim());
    }
    assert!(str_eq("héllo", "héllo"));
    assert!(!str_eq("hello", "hellO"));
    assert!(!str_eq("hello", "hell"));
}

#[test]
fn object_keys() {
    assert_eq!(raw_upload_key("abc"), "uploads/abc.orig");
    assert_eq!(queue_key("abc"), "queue/abc");
    assert_eq!(video_prefix("abc"), "videos/abc/");
    assert_eq!(status_key("abc"), "videos/abc/status.json");
    assert_eq!(s3_uri("raw", "uploads/abc.orig"), "s3://raw/uploads/abc.orig");
    assert_eq!(
        quality_url("cdn.example.com", "abc", "720p"),
        "https://cdn.example.com/videos/abc/720p.mp4"
    );
}

#[test]
fn queue_marker_round_trip() {
    let id = "9b2f6c1e-3d4a-4f7b-8c2d-0e1f2a3b4c5d";
    assert_eq!(job_id_from_queue_key(&queue_key(id)), Some(id.to_string()));
    assert_eq!(job_id_from_queue_key("queue/"), None);
    assert_eq!(job_id_from_queue_key("uploads/x.orig"), None);
}
