use rust_m3u8::error::ErrorKind;
use rust_m3u8::types::{M3u8Playlist, M3u8Variant, PlaylistType};
use rust_m3u8::{MasterParser, NestedParser};

fn master_text(bandwidths: &[u32]) -> String {
    let mut text = String::from("#EXTM3U\n");
    for b in bandwidths {
        text.push_str(&format!("#EXT-X-STREAM-INF:BANDWIDTH={},RESOLUTION=1x1\nv{}.m3u8\n", b, b));
    }
    text
}

fn media_text(name: &str) -> String {
    format!("#EXTM3U\n#EXTINF:4,\n{}_1.ts\n#EXTINF:4,\n{}_2.ts\n#EXT-X-ENDLIST\n", name, name)
}

fn resolve(parser: &NestedParser, bandwidths: &[u32]) -> rust_m3u8::NestedM3u8 {
    let mut nested = parser
        .parse_content(&master_text(bandwidths), Some("https://example.com/hls/master.m3u8"))
        .unwrap();
    assert_eq!(nested.selected_variant_index, None);
    assert!(nested.get_selected_variant().is_none());
    let mut fetched = Vec::new();
    while let Some(url) = parser.next_variant_url(&nested) {
        assert!(parser.check_variant_response(&url, 200).is_ok());
        fetched.push(url.clone());
        parser.accept_variant(&mut nested, &media_text(&url)).unwrap();
    }
    let expected: Vec<String> =
        bandwidths.iter().map(|b| format!("https://example.com/hls/v{}.m3u8", b)).collect();
    assert_eq!(fetched, expected);
    nested
}

#[test]
fn best_bandwidth_is_selected_in_every_order() {
    let parser = NestedParser::new(vec![]).unwrap();
    let orders: [[u32; 3]; 6] = [
        [1_500_000, 2_500_000, 5_000_000],
        [1_500_000, 5_000_000, 2_500_000],
        [2_500_000, 1_500_000, 5_000_000],
        [2_500_000, 5_000_000, 1_500_000],
        [5_000_000, 1_500_000, 2_500_000],
        [5_000_000, 2_500_000, 1_500_000],
    ];
    for order in orders {
        let nested = resolve(&parser, &order);
        let selected = nested.selected_variant_index.unwrap();
        assert_eq!(nested.master_playlist.variants[selected].bandwidth, Some(5_000_000));
        assert_eq!(nested.media_playlists.len(), 3);
        let playlist = nested.get_selected_variant().unwrap();
        assert_eq!(playlist.segments[0].url, "https://example.com/hls/v5000000.m3u8_1.ts");
        let segments = parser.get_selected_segments(&nested).unwrap();
        assert_eq!(segments.len(), 2);
    }
}

#[test]
fn first_of_equal_bandwidths_is_selected() {
    let parser = NestedParser::new(vec![]).unwrap();
    let nested = resolve(&parser, &[300, 900, 900, 100]);
    assert_eq!(nested.selected_variant_index, Some(1));
}

#[test]
fn best_quality_index_of_variants_without_bandwidth() {
    let parser = MasterParser::new(vec![]).unwrap();
    let variant = |bandwidth: Option<u32>| M3u8Variant {
        url: "u".to_string(),
        bandwidth,
        resolution: None,
        codecs: None,
        audio: None,
        video: None,
        subtitles: None,
    };
    let mut playlist = M3u8Playlist::new(PlaylistType::Master);
    assert_eq!(parser.get_best_quality_index(&playlist), 0);
    playlist.variants.push(variant(None));
    playlist.variants.push(variant(Some(0)));
    assert_eq!(parser.get_best_quality_index(&playlist), 0);
    playlist.variants.push(variant(Some(1)));
    playlist.variants.push(variant(None));
    assert_eq!(parser.get_best_quality_index(&playlist), 2);
}

#[test]
fn media_source_is_resolved_at_once() {
    let parser = NestedParser::new(vec![]).unwrap();
    let nested = parser.parse_content(&media_text("https://a.example/s"), None).unwrap();
    assert_eq!(nested.selected_variant_index, Some(0));
    assert_eq!(nested.media_playlists.len(), 1);
    assert!(nested.master_playlist.variants.is_empty());
    assert!(parser.next_variant_url(&nested).is_none());
    assert_eq!(parser.get_selected_segments(&nested).unwrap().len(), 2);
}

#[test]
fn failed_variant_leaves_nothing_behind() {
    let parser = NestedParser::new(vec![]).unwrap();
    let mut nested = parser
        .parse_content(&master_text(&[1, 2]), Some("https://example.com/master.m3u8"))
        .unwrap();
    parser.accept_variant(&mut nested, &media_text("a")).unwrap();
    let e = parser.accept_variant(&mut nested, "no playlist").err().unwrap();
    assert_eq!(e.error_kind(), ErrorKind::ParseError);
    assert_eq!(nested.media_playlists.len(), 1);
    assert_eq!(nested.selected_variant_index, None);
    let e = parser.accept_variant(&mut nested, "#EXTM3U\n").err().unwrap();
    assert_eq!(e.error_kind(), ErrorKind::EmptyError);
    assert_eq!(nested.media_playlists.len(), 1);
    parser.accept_variant(&mut nested, &media_text("b")).unwrap();
    assert_eq!(nested.selected_variant_index, Some(1));
    let e = parser.accept_variant(&mut nested, &media_text("c")).err().unwrap();
    assert_eq!(e.error_kind(), ErrorKind::Other);
    assert_eq!(nested.media_playlists.len(), 2);
}

#[test]
fn response_without_success_is_a_parse_error() {
    let parser = NestedParser::new(vec![]).unwrap();
    for status in [200u16, 204, 299] {
        assert!(parser.check_variant_response("https://example.com/v.m3u8", status).is_ok());
    }
    for status in [0u16, 199, 300, 404, 500] {
        let e = parser.check_variant_response("https://example.com/v.m3u8", status).err().unwrap();
        assert_eq!(e.error_kind(), ErrorKind::ParseError);
        assert!(e.to_string().contains(&status.to_string()));
        assert!(e.to_string().contains("https://example.com/v.m3u8"));
    }
}

#[test]
fn variant_playlist_uses_its_url_as_base() {
    let parser = NestedParser::new(vec![]).unwrap();
    let playlist = parser
        .parse_variant_playlist("https://cdn.example/hd/index.m3u8", "#EXTM3U\n#EXTINF:1,\nseg.ts\n")
        .unwrap();
    assert_eq!(playlist.segments[0].url, "https://cdn.example/hd/seg.ts");
}

#[test]
fn variants_are_described_by_resolution_and_bandwidth() {
    let parser = NestedParser::new(vec![]).unwrap();
    let text = "#EXTM3U\n#EXT-X-STREAM-INF:BANDWIDTH=1500999,RESOLUTION=640x360\na.m3u8\n#EXT-X-STREAM-INF:BANDWIDTH=999\nb.m3u8\n#EXT-X-STREAM-INF:RESOLUTION=1x1\nc.m3u8\n";
    let nested = parser.parse_content(text, Some("https://example.com/")).unwrap();
    assert_eq!(
        parser.get_variants_info(&nested),
        vec![
            (0, "640x360 @ 1500 kbps".to_string()),
            (1, "0 kbps".to_string()),
            (2, "未知质量".to_string()),
        ]
    );
}
