use rust_m3u8::error::ErrorKind;
use rust_m3u8::link::BaseUrl;
use rust_m3u8::types::PlaylistType;
use rust_m3u8::{ContentParser, MasterParser, MediaParser, NestedParser};

fn media(filters: &[&str]) -> MediaParser {
    MediaParser::new(filters.iter().map(|f| f.to_string()).collect()).unwrap()
}

fn nested(filters: &[&str]) -> NestedParser {
    NestedParser::new(filters.iter().map(|f| f.to_string()).collect()).unwrap()
}

fn playlist_of(urls: &[&str]) -> String {
    let mut text = String::from("#EXTM3U\n#EXT-X-VERSION:3\n");
    for url in urls {
        text.push_str("#EXTINF:2.5,\n");
        text.push_str(url);
        text.push('\n');
    }
    text.push_str("#EXT-X-ENDLIST\n");
    text
}

#[test]
fn filter_that_matches_nothing_keeps_every_segment() {
    let urls = ["https://a.example/1.ts", "https://a.example/2.ts", "https://b.example/3.ts"];
    let playlist = media(&["ads\\.", "^ftp:"]).parse(&playlist_of(&urls), None).unwrap();
    assert_eq!(playlist.ads_count, 0);
    assert_eq!(playlist.segments.len(), 3);
    for (i, segment) in playlist.segments.iter().enumerate() {
        assert_eq!(segment.url, urls[i]);
        assert_eq!(segment.sequence, i);
        assert_eq!(segment.duration, 2_500_000);
    }
}

#[test]
fn no_filter_keeps_every_segment() {
    let urls = ["https://a.example/1.ts", "https://ads.example/2.ts"];
    let playlist = media(&[]).parse(&playlist_of(&urls), None).unwrap();
    assert_eq!(playlist.ads_count, 0);
    assert_eq!(playlist.segments.len(), 2);
}

#[test]
fn filter_removes_exactly_the_matching_segments() {
    let urls = [
        "https://a.example/1.ts",
        "https://ads.example/2.ts",
        "https://a.example/3.ts",
        "https://cdn.example/ad/4.ts",
        "https://a.example/5.ts",
    ];
    let parser = media(&["//ads\\.", "/ad/"]);
    let playlist = parser.parse(&playlist_of(&urls), None).unwrap();
    assert_eq!(playlist.ads_count, 2);
    assert_eq!(playlist.segments.len(), 3);
    let kept: Vec<&str> = playlist.segments.iter().map(|s| s.url.as_str()).collect();
    assert_eq!(kept, vec![urls[0], urls[2], urls[4]]);
    let sequences: Vec<usize> = playlist.segments.iter().map(|s| s.sequence).collect();
    assert_eq!(sequences, vec![0, 2, 4]);
    let content = ContentParser::new(vec!["//ads\\.".to_string(), "/ad/".to_string()]).unwrap();
    for segment in &playlist.segments {
        assert!(!content.is_ad_url(&segment.url));
    }
}

#[test]
fn filter_is_case_sensitive_and_sees_the_absolute_url() {
    let parser = media(&["example\\.com/ads/"]);
    let base = BaseUrl::parse("https://example.com/ads/list.m3u8").unwrap();
    let text = "#EXTM3U\n#EXTINF:1,\nseg1.ts\n#EXTINF:1,\nhttps://EXAMPLE.COM/ADS/seg2.ts\n";
    let playlist = parser.parse(text, Some(&base)).unwrap();
    assert_eq!(playlist.ads_count, 1);
    assert_eq!(playlist.segments.len(), 1);
    assert_eq!(playlist.segments[0].url, "https://EXAMPLE.COM/ADS/seg2.ts");
}

#[test]
fn text_without_marker_is_a_parse_error() {
    for text in ["", "EXTM3U\n#EXTINF:1,\na.ts", "\n#EXTM3U\n#EXTINF:1,\nhttp://a/b.ts", " #EXTM3U", "#EXTINF:1,\nhttp://a/b.ts"] {
        let e = media(&[]).parse(text, None).err().unwrap();
        assert_eq!(e.error_kind(), ErrorKind::ParseError);
        let e = MasterParser::new(vec![]).unwrap().parse(text, None).err().unwrap();
        assert_eq!(e.error_kind(), ErrorKind::ParseError);
        let e = nested(&[]).parse_content(text, Some("https://example.com/")).err().unwrap();
        assert_eq!(e.error_kind(), ErrorKind::ParseError);
    }
}

#[test]
fn media_playlist_without_kept_segments_is_an_empty_error() {
    let all_ads = playlist_of(&["https://ads.example/1.ts", "https://ads.example/2.ts"]);
    let e = media(&["ads"]).parse(&all_ads, None).err().unwrap();
    assert_eq!(e.error_kind(), ErrorKind::EmptyError);
    let e = nested(&["ads"]).parse_content(&all_ads, None).err().unwrap();
    assert_eq!(e.error_kind(), ErrorKind::EmptyError);
    let e = media(&[]).parse("#EXTM3U\n#EXT-X-VERSION:3\n#EXT-X-ENDLIST\n", None).err().unwrap();
    assert_eq!(e.error_kind(), ErrorKind::EmptyError);
    let e = media(&[]).parse("#EXTM3U\n#EXTINF:3,\n#EXT-X-ENDLIST\n", None).err().unwrap();
    assert_eq!(e.error_kind(), ErrorKind::EmptyError);
}

#[test]
fn unrecognised_playlist_is_a_parse_error() {
    let e = nested(&[]).parse_content("#EXTM3U\n#EXT-X-VERSION:3\n", None).err().unwrap();
    assert_eq!(e.error_kind(), ErrorKind::ParseError);
}

#[test]
fn malformed_pattern_is_a_parse_error() {
    assert_eq!(
        NestedParser::new(vec!["ok".to_string(), "foo(bar".to_string()]).err().unwrap().error_kind(),
        ErrorKind::ParseError
    );
    assert_eq!(ContentParser::new(vec!["[".to_string()]).err().unwrap().error_kind(), ErrorKind::ParseError);
    assert_eq!(MediaParser::new(vec!["*".to_string()]).err().unwrap().error_kind(), ErrorKind::ParseError);
    assert_eq!(MasterParser::new(vec!["\\".to_string()]).err().unwrap().error_kind(), ErrorKind::ParseError);
    assert!(ContentParser::new(vec!["a|b".to_string(), "".to_string()]).is_ok());
}

#[test]
fn relative_entry_without_base_is_a_parse_error() {
    let e = media(&[]).parse("#EXTM3U\n#EXTINF:1,\nseg.ts\n", None).err().unwrap();
    assert_eq!(e.error_kind(), ErrorKind::ParseError);
    let e = nested(&[]).parse_content("#EXTM3U\n#EXTINF:1,\nseg.ts\n", Some("not a url")).err().unwrap();
    assert_eq!(e.error_kind(), ErrorKind::ParseError);
}

#[test]
fn entry_that_cannot_be_joined_is_a_url_error() {
    let base = BaseUrl::parse("mailto:someone@example.com").unwrap();
    let e = media(&[]).parse("#EXTM3U\n#EXTINF:1,\nseg.ts\n", Some(&base)).err().unwrap();
    assert_eq!(e.error_kind(), ErrorKind::UrlParse);
    assert!(!e.to_string().is_empty());
}

#[test]
fn relative_entries_are_resolved_against_the_base() {
    let base = BaseUrl::parse("https://example.com/video/list.m3u8?x=1").unwrap();
    let text = "#EXTM3U\n#EXTINF:1,\nseg1.ts\n#EXTINF:1,\n/root.ts\n#EXTINF:1,\n../up.ts?k=v\n#EXTINF:1,\n//other.example/x.ts\n#EXTINF:1,\nhttp://abs.example/y.ts\n";
    let playlist = media(&[]).parse(text, Some(&base)).unwrap();
    let urls: Vec<&str> = playlist.segments.iter().map(|s| s.url.as_str()).collect();
    assert_eq!(
        urls,
        vec![
            "https://example.com/video/seg1.ts",
            "https://example.com/root.ts",
            "https://example.com/up.ts?k=v",
            "https://other.example/x.ts",
            "http://abs.example/y.ts",
        ]
    );
}

#[test]
fn base_url_is_taken_only_where_it_is_absolute() {
    assert!(BaseUrl::parse("https://www.example.com").is_some());
    assert_eq!(BaseUrl::parse("https://www.example.com/a b").unwrap().as_str(), "https://www.example.com/a b");
    assert!(BaseUrl::parse("//www.example.com").is_none());
    assert!(BaseUrl::parse("127.0.0.1:9090").is_none());
    assert!(BaseUrl::parse("").is_none());
}

#[test]
fn header_values_of_a_media_playlist() {
    let text = "#EXTM3U\n#EXT-X-VERSION:7\n#EXT-X-TARGETDURATION:10.5\n#EXT-X-MEDIA-SEQUENCE:42\n#EXT-X-DISCONTINUITY-SEQUENCE:3\n#EXTINF:4.25,Opening title,rest\nhttp://a.example/1.ts\n";
    let playlist = media(&[]).parse(text, None).unwrap();
    assert_eq!(playlist.version, 7);
    assert_eq!(playlist.target_duration, 10_500_000);
    assert_eq!(playlist.media_sequence, 42);
    assert_eq!(playlist.discontinuity_sequence, 3);
    assert_eq!(playlist.playlist_type, PlaylistType::Media);
    assert!(playlist.variants.is_empty());
    assert!(playlist.is_live);
    assert_eq!(playlist.segments[0].duration, 4_250_000);
    assert_eq!(playlist.segments[0].title.as_deref(), Some("Opening title"));
    assert_eq!(playlist.segments[0].byte_range, None);
}

#[test]
fn header_values_fall_back_where_they_are_no_numbers() {
    let text = "#EXTM3U\n#EXT-X-VERSION:x\n#EXT-X-TARGETDURATION:abc\n#EXT-X-MEDIA-SEQUENCE:-1\n#EXTINF:abc\nhttp://a.example/1.ts\n";
    let playlist = media(&[]).parse(text, None).unwrap();
    assert_eq!(playlist.version, 1);
    assert_eq!(playlist.target_duration, 0);
    assert_eq!(playlist.media_sequence, 0);
    assert_eq!(playlist.segments[0].duration, 0);
    assert_eq!(playlist.segments[0].title, None);
}

#[test]
fn later_header_lines_win() {
    let text = "#EXTM3U\n#EXT-X-VERSION:3\n#EXTINF:1,\nhttp://a.example/1.ts\n#EXT-X-VERSION:6\n";
    assert_eq!(media(&[]).parse(text, None).unwrap().version, 6);
}

#[test]
fn liveness_follows_end_marker_and_playlist_type() {
    let body = "#EXTINF:1,\nhttp://a.example/1.ts\n";
    let live = format!("#EXTM3U\n{}", body);
    assert!(media(&[]).parse(&live, None).unwrap().is_live);
    let event = format!("#EXTM3U\n#EXT-X-PLAYLIST-TYPE:EVENT\n{}", body);
    assert!(media(&[]).parse(&event, None).unwrap().is_live);
    let vod = format!("#EXTM3U\n#EXT-X-PLAYLIST-TYPE:VOD\n{}", body);
    assert!(!media(&[]).parse(&vod, None).unwrap().is_live);
    let ended = format!("#EXTM3U\n{}#EXT-X-ENDLIST\n", body);
    assert!(!media(&[]).parse(&ended, None).unwrap().is_live);
    let ended_event = format!("#EXTM3U\n#EXT-X-ENDLIST\n#EXT-X-PLAYLIST-TYPE:EVENT\n{}", body);
    assert!(!media(&[]).parse(&ended_event, None).unwrap().is_live);
}

#[test]
fn byte_range_goes_to_the_segment_just_before() {
    let text = "#EXTM3U\n#EXT-X-BYTERANGE:5@1\n#EXTINF:1,\nhttp://a.example/1.ts\n#EXT-X-BYTERANGE:100@20\n#EXTINF:1,\nhttp://a.example/2.ts\n#EXT-X-BYTERANGE:300\n#EXTINF:1,\nhttp://a.example/3.ts\n#EXT-X-BYTERANGE:x@1\n#EXTINF:1,\nhttp://a.example/4.ts\n#EXT-X-BYTERANGE:1@2@3\n";
    let playlist = media(&[]).parse(text, None).unwrap();
    let ranges: Vec<Option<(usize, usize)>> = playlist.segments.iter().map(|s| s.byte_range).collect();
    assert_eq!(ranges, vec![Some((20, 100)), Some((0, 300)), None, None]);
}

#[test]
fn byte_range_after_an_advertisement_is_passed_over() {
    let text = "#EXTM3U\n#EXTINF:1,\nhttp://a.example/1.ts\n#EXTINF:1,\nhttp://ads.example/2.ts\n#EXT-X-BYTERANGE:100@20\n";
    let playlist = media(&["ads"]).parse(text, None).unwrap();
    assert_eq!(playlist.segments.len(), 1);
    assert_eq!(playlist.segments[0].byte_range, None);
}

#[test]
fn kind_of_a_playlist() {
    let parser = ContentParser::new(vec![]).unwrap();
    assert_eq!(parser.parse_content_type("#EXTM3U\n#EXT-X-STREAM-INF:X=1\na.m3u8"), PlaylistType::Master);
    assert_eq!(parser.parse_content_type("#EXTM3U\n# BANDWIDTH here\n#EXTINF:1,\na.ts"), PlaylistType::Media);
    assert_eq!(
        parser.parse_content_type("#EXTM3U\n#EXTINF:4.0,\nhttps://e.com/BANDWIDTH/a.ts"),
        PlaylistType::Media
    );
    assert_eq!(
        parser.parse_content_type("#EXTM3U\n#EXTINF:1,\na.ts\n#EXT-X-STREAM-INF:BANDWIDTH=1\nb.m3u8"),
        PlaylistType::Master
    );
    assert_eq!(parser.parse_content_type("#EXTM3U\n#EXTINF:1,\na.ts"), PlaylistType::Media);
    assert_eq!(parser.parse_content_type("#EXTM3U\n  #EXTINF:1,\na.ts"), PlaylistType::Unknown);
    assert_eq!(parser.parse_content_type("#EXTM3U\n"), PlaylistType::Unknown);
    assert_eq!(parser.parse_content_type("#EXTINF:1,\na.ts"), PlaylistType::Unknown);
    assert_eq!(parser.parse_content_type(""), PlaylistType::Unknown);
}

#[test]
fn stream_information_is_read_field_by_field() {
    let parser = ContentParser::new(vec![]).unwrap();
    let line = "#EXT-X-STREAM-INF:BANDWIDTH=1500000,RESOLUTION=640x360,CODECS=\"avc1.42001e,mp4a.40.2\"";
    assert_eq!(
        parser.parse_stream_inf_line(line),
        (Some(1_500_000), Some((640, 360)), Some("avc1.42001e".to_string()))
    );
    assert_eq!(
        parser.parse_stream_inf_line("RESOLUTION=1x2,BANDWIDTH=3,RESOLUTION=bad,BANDWIDTH=x"),
        (None, Some((1, 2)), None)
    );
    assert_eq!(parser.parse_stream_inf_line("#EXT-X-STREAM-INF:"), (None, None, None));
    assert_eq!(parser.parse_stream_inf_line("RESOLUTION=1x2x3"), (None, None, None));
}

#[test]
fn extinf_line_gives_duration_and_title() {
    let parser = ContentParser::new(vec![]).unwrap();
    assert_eq!(parser.parse_extinf_line("#EXTINF:9.009,"), (9_009_000, Some("".to_string())));
    assert_eq!(parser.parse_extinf_line("#EXTINF:10"), (10_000_000, None));
    assert_eq!(parser.parse_extinf_line("#EXTINF:3, A title "), (3_000_000, Some("A title".to_string())));
    assert_eq!(parser.parse_extinf_line("#EXTINF:3,a:b"), (3_000_000, Some("a".to_string())));
    assert_eq!(parser.parse_extinf_line("#EXTINF"), (0, None));
}

#[test]
fn full_url_of_an_entry() {
    let parser = ContentParser::new(vec![]).unwrap();
    let base = BaseUrl::parse("https://example.com/a/b.m3u8").unwrap();
    assert_eq!(parser.build_full_url("httpx", None).unwrap(), "httpx");
    assert_eq!(parser.build_full_url("c.ts", Some(&base)).unwrap(), "https://example.com/a/c.ts");
    assert_eq!(parser.build_full_url("c.ts", None).err().unwrap().error_kind(), ErrorKind::ParseError);
}

#[test]
fn master_playlist_variants() {
    let parser = MasterParser::new(vec!["blocked".to_string()]).unwrap();
    let base = BaseUrl::parse("https://example.com/master.m3u8").unwrap();
    let text = "#EXTM3U\n#EXT-X-VERSION:4\n#EXT-X-STREAM-INF:BANDWIDTH=100\n# a comment\nlow.m3u8\n#EXT-X-STREAM-INF:BANDWIDTH=900\nblocked/high.m3u8\nstray.m3u8\n#EXT-X-STREAM-INF:RESOLUTION=10x20\n\nmid.m3u8\n";
    let playlist = parser.parse(text, Some(&base)).unwrap();
    assert_eq!(playlist.version, 4);
    assert_eq!(playlist.playlist_type, PlaylistType::Master);
    assert_eq!(playlist.ads_count, 0);
    assert!(playlist.segments.is_empty());
    let urls: Vec<&str> = playlist.variants.iter().map(|v| v.url.as_str()).collect();
    assert_eq!(urls, vec!["https://example.com/low.m3u8", "https://example.com/mid.m3u8"]);
    assert_eq!(playlist.variants[0].bandwidth, Some(100));
    assert_eq!(playlist.variants[1].bandwidth, None);
    assert_eq!(playlist.variants[1].resolution, Some((10, 20)));
    assert_eq!(parser.get_variant_by_resolution(&playlist, 10, 20), Some(1));
    assert_eq!(parser.get_variant_by_resolution(&playlist, 20, 10), None);
}

#[test]
fn master_playlist_without_variants_is_an_empty_error() {
    let parser = MasterParser::new(vec!["m3u8".to_string()]).unwrap();
    let text = "#EXTM3U\n#EXT-X-STREAM-INF:BANDWIDTH=100\nhttp://a.example/low.m3u8\n";
    assert_eq!(parser.parse(text, None).err().unwrap().error_kind(), ErrorKind::EmptyError);
    let parser = MasterParser::new(vec![]).unwrap();
    assert_eq!(parser.parse("#EXTM3U\n", None).err().unwrap().error_kind(), ErrorKind::EmptyError);
    let text = "#EXTM3U\n#EXT-X-STREAM-INF:BANDWIDTH=100\nlow.m3u8\n";
    assert_eq!(parser.parse(text, None).err().unwrap().error_kind(), ErrorKind::ParseError);
}

#[test]
fn duration_and_title_wait_for_the_url_line() {
    let text = "#EXTM3U\n#EXTINF:5.0,\n#EXT-X-BYTERANGE:100@0\nhttps://e.com/a.ts";
    let playlist = media(&[]).parse(text, None).unwrap();
    assert_eq!(playlist.segments.len(), 1);
    assert_eq!(playlist.segments[0].url, "https://e.com/a.ts");
    assert_eq!(playlist.segments[0].duration, 5_000_000);
    assert_eq!(playlist.segments[0].byte_range, None);
    assert_eq!(playlist.segments[0].sequence, 0);

    let text = "#EXTM3U\n#EXTINF:1,first\nhttp://a.example/1.ts\n#EXTINF:2,second\n\n# note\n#EXT-X-BYTERANGE:10@5\n#EXT-X-VERSION:5\nhttp://a.example/2.ts\nhttp://a.example/stray.ts\n#EXTINF:3,third\n#EXTINF:4,fourth\nhttp://a.example/4.ts\n#EXTINF:9,none\n";
    let playlist = media(&[]).parse(text, None).unwrap();
    let urls: Vec<&str> = playlist.segments.iter().map(|s| s.url.as_str()).collect();
    assert_eq!(urls, vec!["http://a.example/1.ts", "http://a.example/2.ts", "http://a.example/4.ts"]);
    let durations: Vec<u64> = playlist.segments.iter().map(|s| s.duration).collect();
    assert_eq!(durations, vec![1_000_000, 2_000_000, 4_000_000]);
    assert_eq!(playlist.segments[1].title.as_deref(), Some("second"));
    assert_eq!(playlist.segments[2].title.as_deref(), Some("fourth"));
    assert_eq!(playlist.segments[0].byte_range, Some((5, 10)));
    assert_eq!(playlist.segments[1].byte_range, None);
    assert_eq!(playlist.version, 5);
    assert_eq!(playlist.ads_count, 0);
}
