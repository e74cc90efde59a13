use rust_m3u8::downloader::format_duration;
use rust_m3u8::proxy::ProxyConfig;
use rust_m3u8::types::M3u8Segment;
use rust_m3u8::{M3u8Downloader, M3u8Error, VideoMerger};
use std::path::PathBuf;

#[test]
fn test_downloader_creation() {
    let created = M3u8Downloader::new(
        "https://example.com/playlist.m3u8".to_string(),
        PathBuf::from("output.mp4"),
        PathBuf::from("temp"),
        10,
        false,
        None,
        3,
        None,
        vec![],
        vec![],
        false,
    );

    assert!(created.is_ok());
    let downloader = created.unwrap();
    assert_eq!(downloader.url(), "https://example.com/playlist.m3u8");
    assert_eq!(downloader.output_path(), &PathBuf::from("output.mp4"));
    assert_eq!(downloader.temp_dir(), &PathBuf::from("temp"));
    assert_eq!(downloader.concurrent_limit(), 10);
    assert_eq!(downloader.max_retries(), 3);
    assert!(downloader.is_remote());
    assert!(downloader.pick_proxy().is_none());
}

#[test]
fn test_downloader_with_proxy() {
    let proxy_config = ProxyConfig::from_args(&vec!["10,http://proxy1:8080".to_string()]).unwrap();

    let created = M3u8Downloader::new(
        "https://example.com/playlist.m3u8".to_string(),
        PathBuf::from("output.mp4"),
        PathBuf::from("temp"),
        5,
        true,
        Some(proxy_config),
        5,
        None,
        vec![],
        vec![],
        true,
    );

    assert!(created.is_ok());
    let downloader = created.unwrap();
    assert_eq!(downloader.pick_proxy(), Some("http://proxy1:8080"));
    assert!(downloader.keep_temp());
    assert!(downloader.simple());
}

#[test]
fn test_downloader_with_custom_headers() {
    let created = M3u8Downloader::new(
        "https://example.com/playlist.m3u8".to_string(),
        PathBuf::from("output.mp4"),
        PathBuf::from("temp"),
        5,
        false,
        None,
        3,
        None,
        vec![
            "Authorization: Bearer token".to_string(),
            "User-Agent: CustomAgent".to_string(),
        ],
        vec![],
        false,
    );

    assert!(created.is_ok());
    let downloader = created.unwrap();
    let headers = downloader.headers();
    assert_eq!(headers.len(), 4);
    assert_eq!(headers.get("user-agent").unwrap(), "CustomAgent");
    assert_eq!(headers.get("accept").unwrap(), "*/*");
    assert_eq!(headers.get("accept-encoding").unwrap(), "gzip, deflate, br");
    assert_eq!(headers.get("authorization").unwrap(), "Bearer token");
}

#[test]
fn test_downloader_with_ad_filters() {
    let created = M3u8Downloader::new(
        "https://example.com/playlist.m3u8".to_string(),
        PathBuf::from("output.mp4"),
        PathBuf::from("temp"),
        5,
        false,
        None,
        3,
        None,
        vec![],
        vec!["ad\\.com".to_string(), "ads\\.".to_string()],
        false,
    );

    assert!(created.is_ok());
    let parser = created.unwrap().parser().unwrap();
    let nested = parser
        .parse_content(
            "#EXTM3U\n#EXTINF:1,\nhttps://ads.example.com/a.ts\n#EXTINF:1,\nhttps://example.com/b.ts\n",
            None,
        )
        .unwrap();
    assert_eq!(nested.get_selected_variant().unwrap().ads_count, 1);
}

#[test]
fn test_format_duration_function() {
    let segments = vec![
        M3u8Segment {
            url: "segment1.ts".to_string(),
            duration: 30_500_000,
            sequence: 0,
            title: None,
            byte_range: None,
        },
        M3u8Segment {
            url: "segment2.ts".to_string(),
            duration: 45_200_000,
            sequence: 1,
            title: None,
            byte_range: None,
        },
    ];

    let formatted = format_duration(&segments);

    assert_eq!(formatted, "00:01:15 s");
}

#[test]
fn test_error_types() {
    let parse_error = M3u8Error::ParseError("test error".to_string());
    let merge_error = M3u8Error::MergeError("merge error".to_string());

    assert!(parse_error.to_string().contains("M3U8 解析错误"));
    assert!(merge_error.to_string().contains("文件合并错误"));
    assert_eq!(parse_error.to_string(), "M3U8 解析错误: test error");
}

#[test]
fn test_proxy_config_methods() {
    let mut config = ProxyConfig::new();
    config.add_proxy("http://proxy1:8080".to_string(), 10);
    config.add_proxy("http://proxy2:8080".to_string(), 20);

    assert_eq!(config.len(), 2);

    for _ in 0..10 {
        assert!(config.get_random_proxy().is_some());
    }
}

#[test]
fn test_video_merger_creation() {
    let _ = VideoMerger::new();
    assert!(true);
}

#[test]
fn downloader_needs_its_headers() {
    let make = |headers: Option<reqwest::header::HeaderMap>, filters: Vec<String>| {
        M3u8Downloader::with_headers(
            "https://example.com/playlist.m3u8".to_string(),
            PathBuf::from("output.mp4"),
            PathBuf::from("temp"),
            5,
            false,
            None,
            3,
            None,
            headers,
            filters,
            false,
        )
    };
    let mut map = reqwest::header::HeaderMap::new();
    map.insert("x-one", reqwest::header::HeaderValue::from_static("1"));
    let made = make(Some(map), vec![]).ok().unwrap();
    assert_eq!(made.headers().len(), 1);
    assert_eq!(made.headers().get("x-one").unwrap(), "1");
    assert_eq!(
        make(None, vec![]).err().unwrap().error_kind(),
        rust_m3u8::error::ErrorKind::ConfigError
    );
    assert_eq!(
        make(None, vec!["(".to_string()]).err().unwrap().error_kind(),
        rust_m3u8::error::ErrorKind::ParseError
    );
}
