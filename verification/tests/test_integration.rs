use rust_m3u8::proxy::ProxyConfig;
use rust_m3u8::types::{M3u8Playlist, PlaylistType};
use rust_m3u8::{M3u8Downloader, NestedParser};
use std::path::PathBuf;

#[test]
fn test_complete_download_flow() {
    let created = M3u8Downloader::new(
        "https://example.com/playlist.m3u8".to_string(),
        PathBuf::from("test_output.mp4"),
        PathBuf::from("test_temp"),
        5,
        false,
        None,
        3,
        None,
        vec![],
        vec![],
        false,
    );

    assert!(created.is_ok());
}

#[test]
fn test_parser_integration() {
    let content = r#"#EXTM3U
#EXT-X-VERSION:3
#EXT-X-TARGETDURATION:10
#EXTINF:9.009,
segment1.ts
#EXTINF:9.009,
segment2.ts
#EXT-X-ENDLIST"#;

    let parser = NestedParser::new(vec![]).unwrap();
    let result = parser.parse_content(content, Some("https://example.com/"));

    assert!(result.is_ok());

    let nested = result.unwrap();
    assert!(nested.get_selected_variant().is_some());
}

#[test]
fn test_error_handling_integration() {
    let invalid_proxy_args = vec!["invalid_format".to_string()];
    let result = ProxyConfig::from_args(&invalid_proxy_args);

    assert!(result.is_err());

    let valid_proxy_args = vec!["10,http://proxy:8080".to_string()];
    let result = ProxyConfig::from_args(&valid_proxy_args);

    assert!(result.is_ok());
}

#[test]
fn test_playlist_type_integration() {
    let master_playlist = M3u8Playlist::new(PlaylistType::Master);
    let media_playlist = M3u8Playlist::new(PlaylistType::Media);

    assert_eq!(master_playlist.playlist_type, PlaylistType::Master);
    assert_eq!(media_playlist.playlist_type, PlaylistType::Media);
}

#[test]
fn test_nested_parser_selection() {
    let content = r#"#EXTM3U
#EXT-X-VERSION:3
#EXT-X-STREAM-INF:BANDWIDTH=1500000,RESOLUTION=640x360
playlist_360p.m3u8
#EXT-X-STREAM-INF:BANDWIDTH=2500000,RESOLUTION=854x480
playlist_480p.m3u8"#;

    let parser = NestedParser::new(vec![]).unwrap();
    let nested = parser.parse_content(content, Some("https://example.com/")).unwrap();

    assert_eq!(nested.master_playlist.variants.len(), 2);
    assert!(nested.master_playlist.is_nested());
}
