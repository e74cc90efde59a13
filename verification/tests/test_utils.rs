use rust_m3u8::downloader::{build_request_headers, format_size, header_value_ok, put_header};
use rust_m3u8::error::{ErrorKind, M3u8Error};
use rust_m3u8::headers::{find_header, read_header, set_header};
use rust_m3u8::merger::TranscoderOutcome;
use rust_m3u8::types::M3u8Segment;
use rust_m3u8::utils::args::Cli;
use rust_m3u8::utils::common::Funcs;
use rust_m3u8::utils::config::{make_default_headers, normalize_base, AppConfig};
use rust_m3u8::utils::logger::{LogLevel, Logger, LoggerConfig};
use rust_m3u8::utils::tmp_dir::{join, TempDir};
use rust_m3u8::VideoMerger;

fn pair(name: &str, value: &str) -> (String, String) {
    (name.to_string(), value.to_string())
}

#[test]
fn sizes_are_worded_in_the_largest_unit() {
    assert_eq!(format_size(0, None), "0B");
    assert_eq!(format_size(1023, None), "1023B");
    assert_eq!(format_size(1024, None), "1.00KB");
    assert_eq!(format_size(1536, Some("/s")), "1.50KB/s");
    assert_eq!(format_size(1024 * 1024 - 1, None), "1024.00KB");
    assert_eq!(format_size(1024 * 1024, None), "1.00MB");
    assert_eq!(format_size(5 * 1024 * 1024 + 256 * 1024, Some(" total")), "5.25MB total");
    assert_eq!(format_size(1024 * 1024 * 1024, None), "1.00GB");
    assert_eq!(format_size(1u64 << 40, None), "1024.00GB");
}

#[test]
fn sizes_are_rounded_to_the_nearest_hundredth() {
    assert_eq!(format_size(1029, None), "1.00KB");
    assert_eq!(format_size(1030, None), "1.01KB");
    assert_eq!(format_size(1152, None), "1.12KB");
    assert_eq!(format_size(1408, None), "1.38KB");
    for size in [1024u64, 1100, 1152, 1408, 2047, 999_999, 1_234_567, 987_654_321, 1 << 33, (1 << 50) + 12345] {
        let expected = if size >= 1024 * 1024 * 1024 {
            format!("{:.2}GB", size as f64 / (1024.0 * 1024.0 * 1024.0))
        } else if size >= 1024 * 1024 {
            format!("{:.2}MB", size as f64 / (1024.0 * 1024.0))
        } else {
            format!("{:.2}KB", size as f64 / 1024.0)
        };
        assert_eq!(format_size(size, None), expected);
    }
}

#[test]
fn every_error_is_worded_by_its_kind() {
    let cases = vec![
        (M3u8Error::Network("n".to_string()), ErrorKind::Network, "网络请求错误: n"),
        (M3u8Error::Io("i".to_string()), ErrorKind::Io, "IO 错误: i"),
        (M3u8Error::UrlParse("u".to_string()), ErrorKind::UrlParse, "URL 解析错误: u"),
        (M3u8Error::ParseError("p".to_string()), ErrorKind::ParseError, "M3U8 解析错误: p"),
        (M3u8Error::EmptyError("e".to_string()), ErrorKind::EmptyError, "内容为空: e"),
        (M3u8Error::MergeError("m".to_string()), ErrorKind::MergeError, "文件合并错误: m"),
        (M3u8Error::ConfigError("c".to_string()), ErrorKind::ConfigError, "配置错误: c"),
        (M3u8Error::DownloadFailed("d".to_string()), ErrorKind::DownloadFailed, "下载失败: d"),
        (M3u8Error::Other("o".to_string()), ErrorKind::Other, "其他错误: o"),
    ];
    for (error, kind, text) in cases {
        assert_eq!(error.error_kind(), kind);
        assert_eq!(error.to_string(), text);
    }
}

#[test]
fn digest_is_md5_in_hexadecimal() {
    assert_eq!(Funcs::content_digest("hello world"), "5eb63bbbe01eeed093cb22bb8f5acdc3");
    assert_eq!(Funcs::content_digest(""), "d41d8cd98f00b204e9800998ecf8427e");
}

#[test]
fn online_resources_name_a_scheme_of_http() {
    assert!(Funcs::is_online_resource("http://a"));
    assert!(Funcs::is_online_resource("https://a"));
    assert!(!Funcs::is_online_resource("HTTP://a"));
    assert!(!Funcs::is_online_resource("ftp://a"));
    assert!(!Funcs::is_online_resource("/tmp/http://a"));
    assert!(!Funcs::is_online_resource("http:/"));
}

#[test]
fn output_file_gets_the_extension_ts() {
    assert_eq!(Funcs::ts_filepath("out/video"), "out/video.ts");
    assert_eq!(Funcs::ts_filepath("out/video.ts"), "out/video.ts");
    assert_eq!(Funcs::ts_filepath("video.mp4"), "video.mp4.ts");
    assert_eq!(Funcs::ts_filepath(".ts"), ".ts");
    assert_eq!(Funcs::ts_filepath("ts"), "ts.ts");
    assert_eq!(Funcs::ts_filepath(""), ".ts");
}

#[test]
fn cache_is_placed_by_the_digest_of_the_playlist() {
    let mut dir = TempDir::new();
    assert_eq!(dir.path(), "");
    dir.init("/tmp", "hello world");
    assert_eq!(dir.path(), "/tmp/rust_m3u8_5eb63bbbe01eeed093cb22bb8f5acdc3");
    assert_eq!(dir.get_file_path(12), "/tmp/rust_m3u8_5eb63bbbe01eeed093cb22bb8f5acdc3/00000012.ts");
    assert_eq!(dir.get_file_path(123456789), "/tmp/rust_m3u8_5eb63bbbe01eeed093cb22bb8f5acdc3/123456789.ts");
    assert_eq!(TempDir::new().get_file_path(7), "00000007.ts");
    let mut rooted = TempDir::new();
    rooted.init("/var/tmp/", "hello world");
    assert_eq!(rooted.path(), "/var/tmp/rust_m3u8_5eb63bbbe01eeed093cb22bb8f5acdc3");
    rooted.init("/", "hello world");
    assert_eq!(rooted.path(), "/rust_m3u8_5eb63bbbe01eeed093cb22bb8f5acdc3");
    rooted.init("", "hello world");
    assert_eq!(rooted.path(), "rust_m3u8_5eb63bbbe01eeed093cb22bb8f5acdc3");
    assert_eq!(rooted.get_file_path(0), "rust_m3u8_5eb63bbbe01eeed093cb22bb8f5acdc3/00000000.ts");
    assert_eq!(join("a/b", &['c']), "a/b/c");
    assert_eq!(join("a/b/", &['c']), "a/b/c");
    assert_eq!(join("", &[]), "");
    let mut other = TempDir::new();
    other.init("/tmp", "hello world!");
    assert_ne!(other.path(), dir.path());
    assert!(TempDir::is_hit(&[0]));
    assert!(!TempDir::is_hit(&[]));
}

#[test]
fn logger_reports_from_its_level_upwards() {
    let mut logger = Logger::default();
    assert_eq!(logger.trace_fmt("t", "m"), None);
    assert_eq!(logger.debug_fmt("t", "m"), None);
    assert_eq!(logger.info_fmt("12:00", "started"), Some("[12:00] [INFO] started".to_string()));
    assert_eq!(logger.warn_fmt("12:00", "w"), Some("[12:00] [WARN] w".to_string()));
    assert_eq!(logger.error_fmt("12:00", "e"), Some("[12:00] [ERROR] e".to_string()));
    logger.set_level(LogLevel::Error);
    assert_eq!(logger.warn_fmt("t", "m"), None);
    assert_eq!(logger.log_fmt(LogLevel::Error, "", ""), Some("[] [ERROR] ".to_string()));
    logger.set_level(LogLevel::Trace);
    assert_eq!(logger.trace_fmt("t", "m"), Some("[t] [TRACE] m".to_string()));
    assert_eq!(logger.debug_fmt("t", "m"), Some("[t] [DEBUG] m".to_string()));
    let logger = Logger::new(Some(LoggerConfig { level: LogLevel::Warn }));
    assert_eq!(logger.info_fmt("t", "m"), None);
    assert!(Logger::new(None).info_fmt("t", "m").is_some());
    assert!(Logger::is_fatal(LogLevel::Error));
    assert!(!Logger::is_fatal(LogLevel::Warn));
}

#[test]
fn log_levels_have_names_and_an_order() {
    let levels = [LogLevel::Trace, LogLevel::Debug, LogLevel::Info, LogLevel::Warn, LogLevel::Error];
    let names = ["TRACE", "DEBUG", "INFO", "WARN", "ERROR"];
    for i in 0..5 {
        assert_eq!(levels[i].to_string(), names[i]);
        assert_eq!(LogLevel::from_name(names[i]), levels[i]);
        assert_eq!(LogLevel::from_name(&names[i].to_lowercase()), levels[i]);
        for j in 0..5 {
            assert_eq!(levels[i].at_least(levels[j]), i >= j);
        }
    }
    assert_eq!(LogLevel::from_name("WaRn"), LogLevel::Warn);
    assert_eq!(LogLevel::from_name("verbose"), LogLevel::Info);
    assert_eq!(LogLevel::from_name(""), LogLevel::Info);
    assert_eq!(LoggerConfig::default().level, LogLevel::Info);
}

#[test]
fn default_configuration() {
    let config = AppConfig::default();
    assert_eq!(config.system.workers, 10);
    assert_eq!(config.system.retry, 3);
    assert!(config.system.proxies.is_empty());
    assert_eq!(config.system.log_level, LogLevel::Info);
    assert_eq!(config.system.base_url, None);
    assert!(config.filters.url_patterns.is_empty());
    assert!(!config.filters.resolution);
    assert_eq!(config.headers.len(), 4);
    assert_eq!(config.headers[1], pair("Accept", "*/*"));
    assert_eq!(config.headers[3], pair("Connection", "keep-alive"));
    let parsed = AppConfig::parse(None);
    assert_eq!(parsed.headers, config.headers);
    assert_eq!(parsed.system.workers, 10);
}

#[test]
fn loaded_configuration_is_brought_into_form() {
    let mut loaded = AppConfig::default();
    loaded.system.workers = 0;
    loaded.system.retry = 0;
    loaded.system.base_url = Some("example.com/video//".to_string());
    loaded.headers = vec![pair("Accept", "text/plain"), pair("X-Token", "t")];
    let config = AppConfig::parse(Some(loaded));
    assert_eq!(config.system.workers, 10);
    assert_eq!(config.system.retry, u32::MAX);
    assert_eq!(config.system.base_url.as_deref(), Some("https://example.com/video"));
    let names: Vec<&str> = config.headers.iter().map(|h| h.0.as_str()).collect();
    assert_eq!(names, vec!["Accept", "X-Token", "User-Agent", "Accept-Encoding", "Connection"]);
    assert_eq!(config.headers[0].1, "text/plain");

    let mut loaded = AppConfig::default();
    loaded.system.workers = 4;
    loaded.system.retry = 7;
    loaded.system.base_url = Some("http://example.com".to_string());
    loaded.headers = Vec::new();
    let config = AppConfig::parse(Some(loaded));
    assert_eq!(config.system.workers, 4);
    assert_eq!(config.system.retry, 7);
    assert_eq!(config.system.base_url.as_deref(), Some("http://example.com"));
    assert_eq!(config.headers, make_default_headers());
}

#[test]
fn base_url_is_normalised() {
    assert_eq!(normalize_base("https://a.example/x/"), "https://a.example/x");
    assert_eq!(normalize_base("a.example"), "https://a.example");
    assert_eq!(normalize_base("ftp://a.example///"), "https://ftp://a.example");
    assert_eq!(normalize_base(""), "https:");
}

#[test]
fn command_line_overrides_the_configuration() {
    let mut config = AppConfig::default();
    config.system.base_url = Some("https://old.example".to_string());
    let cli = Cli {
        src: "list.m3u8".to_string(),
        dest: None,
        config: None,
        base_url: Some("https://new.example/".to_string()),
        headers: vec![
            "Accept: text/html".to_string(),
            "no colon".to_string(),
            " X-One :  1 : 2 ".to_string(),
            "X-One:3".to_string(),
        ],
    };
    config.accept_cli(&cli);
    assert_eq!(config.system.base_url.as_deref(), Some("https://new.example/"));
    assert_eq!(config.headers.len(), 5);
    assert_eq!(config.headers[1], pair("Accept", "text/html"));
    assert_eq!(config.headers[4], pair("X-One", "3"));

    let mut config = AppConfig::default();
    config.system.base_url = Some("https://old.example".to_string());
    let cli = Cli { src: String::new(), dest: None, config: None, base_url: None, headers: vec![] };
    config.accept_cli(&cli);
    assert_eq!(config.system.base_url.as_deref(), Some("https://old.example"));
    assert_eq!(config.headers, make_default_headers());
}

#[test]
fn headers_are_found_and_set_by_name() {
    let mut headers = vec![pair("a", "1"), pair("b", "2"), pair("a", "3")];
    assert_eq!(find_header(&headers, "a"), Some(0));
    assert_eq!(find_header(&headers, "b"), Some(1));
    assert_eq!(find_header(&headers, "A"), None);
    set_header(&mut headers, "a".to_string(), "9".to_string());
    set_header(&mut headers, "c".to_string(), "4".to_string());
    assert_eq!(headers, vec![pair("a", "9"), pair("b", "2"), pair("a", "3"), pair("c", "4")]);
    assert_eq!(read_header("Name: Value"), Some(pair("Name", "Value")));
    assert_eq!(read_header(":"), Some(pair("", "")));
    assert_eq!(read_header("a:b:c"), Some(pair("a", "b:c")));
    assert_eq!(read_header("no colon"), None);
}

#[test]
fn request_headers_take_valid_lines_only() {
    let lines = vec![
        "X-Token: abc".to_string(),
        "Bad Name: x".to_string(),
        "X-Control: a\u{7f}b".to_string(),
        "ACCEPT: text/html".to_string(),
        "X-Tab: a\tb".to_string(),
        "X-Wide: é".to_string(),
        ": empty name".to_string(),
        "nothing".to_string(),
    ];
    let headers = build_request_headers(&lines).unwrap();
    let mut names: Vec<&str> = headers.keys().map(|n| n.as_str()).collect();
    names.sort();
    assert_eq!(names, vec!["accept", "accept-encoding", "user-agent", "x-tab", "x-token", "x-wide"]);
    assert_eq!(headers.get("accept").unwrap(), "text/html");
    assert_eq!(headers.get("x-tab").unwrap(), "a\tb");
    assert_eq!(headers.get("x-token").unwrap(), "abc");
    assert_eq!(headers.get("x-wide").unwrap().as_bytes(), "é".as_bytes());
    assert!(headers.get("user-agent").unwrap().to_str().unwrap().starts_with("Mozilla/5.0"));
    let usual = build_request_headers(&vec![]).unwrap();
    assert_eq!(usual.len(), 3);
    assert_eq!(usual.get("accept").unwrap(), "*/*");
    let mut map = reqwest::header::HeaderMap::new();
    assert!(put_header(&mut map, "X-Twice", "1"));
    assert!(put_header(&mut map, "x-twice", "2"));
    assert!(put_header(&mut map, "bad name", "3"));
    assert!(put_header(&mut map, "x-bad-value", "\n"));
    assert_eq!(map.len(), 1);
    assert_eq!(map.get("x-twice").unwrap(), "2");
    for value in ["", "plain", "a\tb", "é", "~", " "] {
        assert!(header_value_ok(value));
        assert!(reqwest::header::HeaderValue::from_str(value).is_ok());
    }
    for value in ["a\nb", "\u{7f}", "\0", "\r", "\u{1f}x"] {
        assert!(!header_value_ok(value));
        assert!(reqwest::header::HeaderValue::from_str(value).is_err());
    }
}

#[test]
fn merger_names_files_by_sequence_number() {
    let merger = VideoMerger::new();
    assert_eq!(merger.segment_file_name(0), "segment_000000.ts");
    assert_eq!(merger.segment_file_name(42), "segment_000042.ts");
    assert_eq!(merger.segment_file_name(1234567), "segment_1234567.ts");
}

#[test]
fn merger_lists_files_for_the_transcoder() {
    let merger = VideoMerger::new();
    let paths = vec!["C:\\tmp\\segment_000000.ts".to_string(), "/tmp/it's.ts".to_string()];
    assert_eq!(merger.file_list(&paths), "file 'C:/tmp/segment_000000.ts'\nfile '/tmp/it's.ts'\n");
    assert_eq!(merger.file_list(&vec![]), "");
    assert_eq!(
        merger.transcoder_arguments("list.txt", "out.mp4"),
        vec!["-f", "concat", "-safe", "0", "-i", "list.txt", "-c", "copy", "-y", "out.mp4"]
    );
    assert!(!merger.needs_plain_merge(TranscoderOutcome::Succeeded));
    assert!(merger.needs_plain_merge(TranscoderOutcome::Failed));
    assert!(merger.needs_plain_merge(TranscoderOutcome::Unavailable));
}

#[test]
fn merger_refuses_missing_segments() {
    let merger = VideoMerger::new();
    let segment = |sequence: usize| M3u8Segment {
        url: "u".to_string(),
        duration: 0,
        sequence,
        title: None,
        byte_range: None,
    };
    let segments = vec![segment(0), segment(3), segment(4), segment(9)];
    assert!(merger.check_complete(&segments, &vec![true, true, true, true]).is_ok());
    assert!(merger.check_complete(&[], &vec![]).is_ok());
    assert_eq!(merger.missing_segments(&segments, &vec![true, false, true]), vec![3, 9]);
    let e = merger.check_complete(&segments, &vec![true, false, true]).err().unwrap();
    assert_eq!(e.error_kind(), ErrorKind::MergeError);
    assert_eq!(e.to_string(), "文件合并错误: 片段文件不存在: 2 个 [3, 9]");
    let e = merger.check_complete(&segments, &vec![false, true, true, true]).err().unwrap();
    assert_eq!(e.to_string(), "文件合并错误: 片段文件不存在: 1 个 [0]");
}
