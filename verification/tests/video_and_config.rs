use assetlab::config::{
    cors_origins, cors_policy, listen_port, parse_port, setting_or, AllowedHeader, CorsOrigins,
    HttpMethod, MAX_UPLOAD_BYTES,
};
use assetlab::error::AppError;
use assetlab::state::AppState;
use assetlab::video::{video_quality_url, video_status, video_url, StatusFetch, PRESIGN_TTL_SECS};

#[test]
fn raw_video_url_request() {
    let g = video_url("abc").ok().unwrap();
    assert_eq!(g.key(), "uploads/abc.orig");
    assert_eq!(g.expires_secs(), 3600);
    let (key, config) = g.into_parts();
    assert_eq!(key, "uploads/abc.orig");
    assert_eq!(config.expires(), std::time::Duration::from_secs(PRESIGN_TTL_SECS));
    assert_eq!(PRESIGN_TTL_SECS, 3600);
}

#[test]
fn status_answers() {
    let body = br#"{"status":"done","qualities":["720p"]}"#.to_vec();
    let r = video_status(StatusFetch::Found(body.clone())).ok().unwrap();
    assert_eq!((r.status, r.content_type.as_str()), (200, "application/json"));
    assert_eq!(r.body, body);
    assert!(matches!(video_status(StatusFetch::NoSuchKey), Err(AppError::NotFound)));
    match video_status(StatusFetch::Failed("boom".to_string())) {
        Err(AppError::S3(m)) => assert_eq!(m, "boom"),
        _ => panic!("expected S3 error"),
    }
}

#[test]
fn rendition_url() {
    assert_eq!(video_quality_url("d.cloudfront.net", "id1", "1080p").url, "https://d.cloudfront.net/videos/id1/1080p.mp4");
}

#[test]
fn cors_origin_lists() {
    assert!(matches!(cors_origins(None), CorsOrigins::Any));
    assert!(matches!(cors_origins(Some(" , ,")), CorsOrigins::Any));
    assert!(matches!(cors_origins(Some("")), CorsOrigins::Any));
    match cors_origins(Some(" https://a.example , ,https://b.example,bad\u{7f}origin")) {
        CorsOrigins::List(v) => assert_eq!(v, vec!["https://a.example", "https://b.example"]),
        CorsOrigins::Any => panic!("expected a list"),
    }
}

#[test]
fn port_parsing_matches_std() {
    for s in ["3000", "+80", "0080", "65535", "65536", "", "+", "-1", "12a", " 80", "99999999999"] {
        assert_eq!(parse_port(s), s.parse::<u16>().ok(), "{}", s);
    }
    assert_eq!(listen_port(None), 3000);
    assert_eq!(listen_port(Some("8080")), 8080);
    assert_eq!(listen_port(Some("http")), 3000);
}

#[test]
fn settings_and_limits() {
    assert_eq!(setting_or(None, "eu-west-3"), "eu-west-3");
    assert_eq!(setting_or(Some("us-east-1".to_string()), "eu-west-3"), "us-east-1");
    assert_eq!(MAX_UPLOAD_BYTES, 1 << 30);
}

#[test]
fn state_buckets() {
    let conf = aws_sdk_s3::Config::builder()
        .behavior_version(aws_sdk_s3::config::BehaviorVersion::latest())
        .region(aws_sdk_s3::config::Region::new("eu-west-3"))
        .build();
    let state = AppState {
        s3: aws_sdk_s3::Client::from_conf(conf),
        raw_bucket: "raw".to_string(),
        video_bucket: "vid".to_string(),
        cloudfront_domain: "cdn".to_string(),
    };
    assert_eq!(state.raw_bucket(), "raw");
    assert_eq!(state.bucket(), "raw");
    assert_eq!(state.video_bucket(), "vid");
    assert_eq!(state.cloudfront_domain(), "cdn");
}

#[test]
fn cors_policy_methods_and_headers() {
    for raw in [None, Some(" https://a.example , https://b.example"), Some(" , ")] {
        let p = cors_policy(raw);
        assert!(p.methods == vec![HttpMethod::Get, HttpMethod::Post, HttpMethod::Options]);
        assert!(p.headers == vec![AllowedHeader::Authorization, AllowedHeader::ContentType, AllowedHeader::Accept]);
        match (raw, p.origins) {
            (Some(r), CorsOrigins::List(v)) if r.contains("a.example") => {
                assert_eq!(v, vec!["https://a.example", "https://b.example"])
            }
            (Some(r), CorsOrigins::Any) if !r.contains("a.example") => {}
            (None, CorsOrigins::Any) => {}
            _ => panic!("unexpected origins"),
        }
    }
}
