use crate::error::{ErrorKind, M3u8Error};
use crate::link::{base_view, BaseUrl};
use crate::number::{
    micros_or_zero, parse_decimal_micros, parse_u32, parse_u32_spec, parse_usize,
    parse_usize_spec,
};
use crate::parser::content_parser::{
    extinf_duration, extinf_fields, extinf_title, resolve_url, second_field, ContentParser,
};
use crate::pattern::{all_compile, matches_any, texts};
use crate::text::{
    has_prefix, lines, rows, same_chars, split, split_chars, split_lines, starts_with,
    string_from_chars, strip_prefix, strip_prefix_chars, to_chars, trim, trim_chars,
};
use crate::types::{segment_views, M3u8Playlist, M3u8Segment, PlaylistType, PlaylistView, SegmentView};
use vstd::prelude::*;

verus! {

/// What an `#EXTINF` line says of the segment whose URL follows.
pub struct EntryInfo {
    pub duration: u64,
    pub title: Option<Seq<char>>,
}

/// What has been read of a media playlist after some of its lines.
pub struct MediaScan {
    pub version: u32,
    pub target_duration: u64,
    /// Whether the latest playlist-type line said `VOD`.
    pub vod: bool,
    /// Whether an end-of-list line was met.
    pub ended: bool,
    pub media_sequence: usize,
    pub discontinuity_sequence: usize,
    /// The segments kept so far.
    pub segments: Seq<SegmentView>,
    /// How many segment entries were met, advertisements included.
    pub entries: nat,
    /// How many of them were advertisements.
    pub ads: nat,
    /// Whether the latest entry was kept, and so is the last of `segments`.
    pub last_kept: bool,
    /// The duration and title that still wait for their URL line.
    pub pending: Option<EntryInfo>,
}

impl MediaScan {
    /// Before the first line: version 1, nothing else.
    pub open spec fn start() -> MediaScan {
        MediaScan {
            version: 1,
            target_duration: 0,
            vod: false,
            ended: false,
            media_sequence: 0,
            discontinuity_sequence: 0,
            segments: Seq::empty(),
            entries: 0,
            ads: 0,
            last_kept: false,
            pending: None,
        }
    }

    /// The playlist that the scan amounts to. It is live unless an end-of-list
    /// line was met or its type is `VOD`.
    pub open spec fn playlist(self) -> PlaylistView {
        PlaylistView {
            segments: self.segments,
            variants: Seq::empty(),
            playlist_type: PlaylistType::Media,
            target_duration: self.target_duration as nat,
            version: self.version as nat,
            is_live: !self.ended && !self.vod,
            ads_count: self.ads,
            media_sequence: self.media_sequence as nat,
            discontinuity_sequence: self.discontinuity_sequence as nat,
        }
    }
}

/// The `u32` in the second field of `line`, or `default`.
pub open spec fn field_u32(line: Seq<char>, default: u32) -> u32 {
    match second_field(line) {
        Some(v) => match parse_u32_spec(v) {
            Some(x) => x,
            None => default,
        },
        None => default,
    }
}

/// The `usize` in the second field of `line`, or 0.
pub open spec fn field_usize(line: Seq<char>) -> usize {
    match second_field(line) {
        Some(v) => match parse_usize_spec(v) {
            Some(x) => x,
            None => 0,
        },
        None => 0,
    }
}

/// The microseconds in the second field of `line`, or 0.
pub open spec fn field_micros(line: Seq<char>) -> u64 {
    match second_field(line) {
        Some(v) => micros_or_zero(v),
        None => 0,
    }
}

/// Offset and length that an `#EXT-X-BYTERANGE` line gives, as `LENGTH` or
/// `LENGTH@OFFSET`.
pub open spec fn byte_range_of(line: Seq<char>) -> Option<(usize, usize)> {
    match strip_prefix(line, "#EXT-X-BYTERANGE:"@) {
        Some(content) => {
            let parts = split(content, '@');
            if parts.len() == 1 {
                match parse_usize_spec(parts[0]) {
                    Some(length) => Some((0usize, length)),
                    None => None,
                }
            } else if parts.len() == 2 {
                match (parse_usize_spec(parts[0]), parse_usize_spec(parts[1])) {
                    (Some(length), Some(offset)) => Some((offset, length)),
                    _ => None,
                }
            } else {
                None
            }
        },
        None => None,
    }
}

/// The header values after the trimmed line `line`.
pub open spec fn header_step(st: MediaScan, line: Seq<char>) -> MediaScan {
    MediaScan {
        version: if has_prefix(line, "#EXT-X-VERSION:"@) {
            field_u32(line, 1)
        } else {
            st.version
        },
        target_duration: if has_prefix(line, "#EXT-X-TARGETDURATION:"@) {
            field_micros(line)
        } else {
            st.target_duration
        },
        vod: if has_prefix(line, "#EXT-X-PLAYLIST-TYPE:"@) {
            second_field(line) == Some("VOD"@)
        } else {
            st.vod
        },
        ended: st.ended || has_prefix(line, "#EXT-X-ENDLIST"@),
        media_sequence: if has_prefix(line, "#EXT-X-MEDIA-SEQUENCE:"@) {
            field_usize(line)
        } else {
            st.media_sequence
        },
        discontinuity_sequence: if has_prefix(line, "#EXT-X-DISCONTINUITY-SEQUENCE:"@) {
            field_usize(line)
        } else {
            st.discontinuity_sequence
        },
        ..st
    }
}

/// The scan after the trimmed line `line`. An empty line changes nothing. An
/// `#EXTINF` line gives duration and title, which wait for the next line
/// that is no comment: that line is the URL of a segment entry. The URL is
/// made absolute, which may fail; the segment is counted as an advertisement
/// where a pattern matches the URL, and kept otherwise. A byte-range line
/// sets the range of the entry just before it, if that was kept; one that no
/// kept entry precedes is passed over.
pub open spec fn media_step(
    patterns: Seq<Seq<char>>,
    base: Option<Seq<char>>,
    st: MediaScan,
    line: Seq<char>,
) -> Result<MediaScan, ErrorKind> {
    if line.len() == 0 {
        Ok(st)
    } else {
        let st1 = header_step(st, line);
        if !has_prefix(line, "#"@) {
            match st.pending {
                Some(info) => match resolve_url(line, base) {
                    Err(k) => Err(k),
                    Ok(full) => if matches_any(patterns, full) {
                        Ok(
                            MediaScan {
                                entries: st.entries + 1,
                                ads: st.ads + 1,
                                last_kept: false,
                                pending: None,
                                ..st1
                            },
                        )
                    } else {
                        Ok(
                            MediaScan {
                                segments: st.segments.push(
                                    SegmentView {
                                        url: full,
                                        duration: info.duration as nat,
                                        sequence: st.entries,
                                        title: info.title,
                                        byte_range: None,
                                    },
                                ),
                                entries: st.entries + 1,
                                last_kept: true,
                                pending: None,
                                ..st1
                            },
                        )
                    },
                },
                None => Ok(st1),
            }
        } else if has_prefix(line, "#EXTINF:"@) {
            Ok(
                MediaScan {
                    pending: Some(
                        EntryInfo { duration: extinf_duration(line), title: extinf_title(line) },
                    ),
                    ..st1
                },
            )
        } else if has_prefix(line, "#EXT-X-BYTERANGE:"@) && st.last_kept && st.segments.len() > 0 {
            match byte_range_of(line) {
                Some((offset, length)) => Ok(
                    MediaScan {
                        segments: st.segments.drop_last().push(
                            SegmentView {
                                byte_range: Some((offset as nat, length as nat)),
                                ..st.segments.last()
                            },
                        ),
                        ..st1
                    },
                ),
                None => Ok(st1),
            }
        } else {
            Ok(st1)
        }
    }
}

/// The scan after the first `n` of the trimmed lines `all`; the first failure
/// ends it.
pub open spec fn media_scan(
    patterns: Seq<Seq<char>>,
    base: Option<Seq<char>>,
    all: Seq<Seq<char>>,
    n: int,
) -> Result<MediaScan, ErrorKind>
    decreases n,
{
    if n <= 0 {
        Ok(MediaScan::start())
    } else {
        match media_scan(patterns, base, all, n - 1) {
            Err(k) => Err(k),
            Ok(st) => media_step(patterns, base, st, all[n - 1]),
        }
    }
}

/// The lines of `content`, each trimmed.
pub open spec fn trimmed_lines(content: Seq<char>) -> Seq<Seq<char>> {
    split_lines(content).map_values(|l: Seq<char>| trim(l))
}

/// What parsing `content` as a media playlist gives: a parse error unless it
/// begins with `#EXTM3U`, the first failure to make a segment URL absolute,
/// an empty error where no segment is kept, and else the playlist.
pub open spec fn media_outcome(
    patterns: Seq<Seq<char>>,
    base: Option<Seq<char>>,
    content: Seq<char>,
) -> Result<PlaylistView, ErrorKind> {
    let all = trimmed_lines(content);
    if !has_prefix(content, "#EXTM3U"@) {
        Err(ErrorKind::ParseError)
    } else {
        match media_scan(patterns, base, all, all.len() as int) {
            Err(k) => Err(k),
            Ok(st) => if st.segments.len() == 0 {
                Err(ErrorKind::EmptyError)
            } else {
                Ok(st.playlist())
            },
        }
    }
}

/// A scan that has failed stays failed.
pub proof fn lemma_scan_failure_stays(
    patterns: Seq<Seq<char>>,
    base: Option<Seq<char>>,
    all: Seq<Seq<char>>,
    m: int,
    n: int,
)
    requires
        0 <= m <= n,
        media_scan(patterns, base, all, m) is Err,
    ensures
        media_scan(patterns, base, all, n) == media_scan(patterns, base, all, m),
    decreases n - m,
{
    if m < n {
        lemma_scan_failure_stays(patterns, base, all, m, n - 1);
    }
}

/// Whether, after the first `n` of the trimmed lines `all`, an `#EXTINF` line
/// still waits for its URL line.
pub open spec fn awaits_url(all: Seq<Seq<char>>, n: int) -> bool
    decreases n,
{
    if n <= 0 {
        false
    } else {
        let line = all[n - 1];
        if line.len() == 0 {
            awaits_url(all, n - 1)
        } else if !has_prefix(line, "#"@) {
            false
        } else if has_prefix(line, "#EXTINF:"@) {
            true
        } else {
            awaits_url(all, n - 1)
        }
    }
}

/// Whether line `i` of the trimmed lines `all` is the URL line of a segment
/// entry: it is not empty, is no comment, and an `#EXTINF` line waits for
/// it.
pub open spec fn is_entry_line(all: Seq<Seq<char>>, i: int) -> bool {
    all[i].len() > 0 && !has_prefix(all[i], "#"@) && awaits_url(all, i)
}

/// The absolute URLs of the segment entries among the first `n` of the
/// trimmed lines `all`, in order, whatever the filter makes of them.
pub open spec fn entry_urls(base: Option<Seq<char>>, all: Seq<Seq<char>>, n: int) -> Seq<
    Seq<char>,
>
    decreases n,
{
    if n <= 0 {
        Seq::empty()
    } else {
        let before = entry_urls(base, all, n - 1);
        if is_entry_line(all, n - 1) {
            match resolve_url(all[n - 1], base) {
                Ok(u) => before.push(u),
                Err(_) => before,
            }
        } else {
            before
        }
    }
}

/// How many of `urls` are advertisements.
pub open spec fn count_ads(patterns: Seq<Seq<char>>, urls: Seq<Seq<char>>) -> nat
    decreases urls.len(),
{
    if urls.len() == 0 {
        0
    } else {
        count_ads(patterns, urls.drop_last()) + if matches_any(patterns, urls.last()) {
            1nat
        } else {
            0nat
        }
    }
}

/// Those of `urls` that are no advertisements, in order.
pub open spec fn unmatched(patterns: Seq<Seq<char>>, urls: Seq<Seq<char>>) -> Seq<Seq<char>>
    decreases urls.len(),
{
    if urls.len() == 0 {
        Seq::empty()
    } else if matches_any(patterns, urls.last()) {
        unmatched(patterns, urls.drop_last())
    } else {
        unmatched(patterns, urls.drop_last()).push(urls.last())
    }
}

/// The URLs of the given segments.
pub open spec fn urls_of(segments: Seq<SegmentView>) -> Seq<Seq<char>> {
    segments.map_values(|s: SegmentView| s.url)
}

/// Where none of `urls` is an advertisement, their count of advertisements is
/// 0.
pub proof fn lemma_count_ads_none(patterns: Seq<Seq<char>>, urls: Seq<Seq<char>>)
    requires
        forall|k: int| 0 <= k < urls.len() ==> !matches_any(patterns, #[trigger] urls[k]),
    ensures
        count_ads(patterns, urls) == 0,
    decreases urls.len(),
{
    if urls.len() > 0 {
        let rest = urls.drop_last();
        assert forall|k: int| 0 <= k < rest.len() implies !matches_any(
            patterns,
            #[trigger] rest[k],
        ) by {
            assert(rest[k] == urls[k]);
        }
        lemma_count_ads_none(patterns, rest);
        assert(urls.last() == urls[urls.len() - 1]);
    }
}

/// What a scan that has not failed holds: every entry met is either counted
/// as an advertisement or kept, the advertisements are the entries that a
/// pattern matches, and the kept segments are the others, in their order.
pub proof fn lemma_scan_counts(
    patterns: Seq<Seq<char>>,
    base: Option<Seq<char>>,
    all: Seq<Seq<char>>,
    n: int,
)
    requires
        media_scan(patterns, base, all, n) is Ok,
    ensures
        ({
            let st = media_scan(patterns, base, all, n)->Ok_0;
            let urls = entry_urls(base, all, n);
            &&& st.entries == urls.len()
            &&& st.pending is Some <==> awaits_url(all, n)
            &&& st.ads == count_ads(patterns, urls)
            &&& st.segments.len() + st.ads == st.entries
            &&& urls_of(st.segments) == unmatched(patterns, urls)
            &&& forall|j: int|
                0 <= j < st.segments.len() ==> !matches_any(patterns, (#[trigger] st.segments[j]).url)
        }),
    decreases n,
{
    if n > 0 {
        let prev = media_scan(patterns, base, all, n - 1);
        assert(prev is Ok);
        lemma_scan_counts(patterns, base, all, n - 1);
        let st0 = prev->Ok_0;
        let st = media_scan(patterns, base, all, n)->Ok_0;
        let urls0 = entry_urls(base, all, n - 1);
        let urls = entry_urls(base, all, n);
        let line = all[n - 1];
        if is_entry_line(all, n - 1) {
            let full = resolve_url(line, base)->Ok_0;
            assert(urls == urls0.push(full));
            assert(urls.drop_last() =~= urls0);
            assert(urls.last() == full);
            if matches_any(patterns, full) {
                assert(st.segments == st0.segments);
            } else {
                assert(urls_of(st.segments) =~= urls_of(st0.segments).push(full));
            }
            assert forall|j: int| 0 <= j < st.segments.len() implies !matches_any(
                patterns,
                (#[trigger] st.segments[j]).url,
            ) by {
                if j < st0.segments.len() {
                    assert(st.segments[j] == st0.segments[j]);
                }
            }
        } else {
            assert(urls == urls0);
            assert(urls_of(st.segments) =~= urls_of(st0.segments));
            assert forall|j: int| 0 <= j < st.segments.len() implies !matches_any(
                patterns,
                (#[trigger] st.segments[j]).url,
            ) by {
                if j < st0.segments.len() - 1 {
                    assert(st.segments[j] == st0.segments[j]);
                } else {
                    assert(st.segments[j].url == st0.segments[j].url);
                }
            }
        }
    }
}

/// The kept segments come in the order of the playlist: their sequence
/// numbers grow from each to the next, and none reaches the number of
/// entries met.
pub proof fn lemma_sequences_ascend(
    patterns: Seq<Seq<char>>,
    base: Option<Seq<char>>,
    all: Seq<Seq<char>>,
    n: int,
)
    requires
        media_scan(patterns, base, all, n) is Ok,
    ensures
        ({
            let st = media_scan(patterns, base, all, n)->Ok_0;
            &&& forall|j: int|
                0 <= j < st.segments.len() ==> (#[trigger] st.segments[j]).sequence < st.entries
            &&& forall|j: int, k: int|
                0 <= j < k < st.segments.len() ==> (#[trigger] st.segments[j]).sequence < (
                #[trigger] st.segments[k]).sequence
        }),
    decreases n,
{
    if n > 0 {
        let prev = media_scan(patterns, base, all, n - 1);
        assert(prev is Ok);
        lemma_sequences_ascend(patterns, base, all, n - 1);
        let st0 = prev->Ok_0;
        let st = media_scan(patterns, base, all, n)->Ok_0;
        assert forall|j: int| 0 <= j < st.segments.len() implies (#[trigger] st.segments[j]).sequence
            < st.entries by {
            if j < st0.segments.len() {
                assert(st.segments[j].sequence == st0.segments[j].sequence);
            }
        }
        assert forall|j: int, k: int| 0 <= j < k < st.segments.len() implies (
        #[trigger] st.segments[j]).sequence < (#[trigger] st.segments[k]).sequence by {
            assert(st.segments[j].sequence == st0.segments[j].sequence);
            if k < st0.segments.len() {
                assert(st.segments[k].sequence == st0.segments[k].sequence);
            }
        }
    }
}

/// The segments of a parsed media playlist are in ascending order of their
/// sequence numbers.
pub proof fn lemma_playlist_in_sequence_order(
    patterns: Seq<Seq<char>>,
    base: Option<Seq<char>>,
    content: Seq<char>,
)
    requires
        media_outcome(patterns, base, content) is Ok,
    ensures
        forall|j: int, k: int|
            0 <= j < k < media_outcome(patterns, base, content)->Ok_0.segments.len() ==> (
            #[trigger] media_outcome(patterns, base, content)->Ok_0.segments[j]).sequence < (
            #[trigger] media_outcome(patterns, base, content)->Ok_0.segments[k]).sequence,
{
    let all = trimmed_lines(content);
    lemma_sequences_ascend(patterns, base, all, all.len() as int);
}

/// The segment URLs that the media playlist `content` lists, made absolute,
/// in order, whatever the filter makes of them.
pub open spec fn listed_urls(base: Option<Seq<char>>, content: Seq<char>) -> Seq<Seq<char>> {
    entry_urls(base, trimmed_lines(content), trimmed_lines(content).len() as int)
}

/// Filtering accounts for every listed segment: of the segments that a parsed
/// media playlist lists, those that a pattern matches are counted as
/// advertisements, the others are kept in their order, and no kept segment is
/// matched by a pattern.
pub proof fn lemma_filter_accounts_for_all(
    patterns: Seq<Seq<char>>,
    base: Option<Seq<char>>,
    content: Seq<char>,
)
    requires
        media_outcome(patterns, base, content) is Ok,
    ensures
        ({
            let playlist = media_outcome(patterns, base, content)->Ok_0;
            let urls = listed_urls(base, content);
            &&& playlist.ads_count == count_ads(patterns, urls)
            &&& playlist.segments.len() == urls.len() - count_ads(patterns, urls)
            &&& urls_of(playlist.segments) == unmatched(patterns, urls)
            &&& forall|j: int|
                0 <= j < playlist.segments.len() ==> !matches_any(
                    patterns,
                    (#[trigger] playlist.segments[j]).url,
                )
        }),
{
    let all = trimmed_lines(content);
    lemma_scan_counts(patterns, base, all, all.len() as int);
}

/// A filter that matches none of the listed segments removes none: the
/// parsed playlist counts no advertisement and keeps as many segments as the
/// text lists.
pub proof fn lemma_unmatched_filter_keeps_all(
    patterns: Seq<Seq<char>>,
    base: Option<Seq<char>>,
    content: Seq<char>,
)
    requires
        media_outcome(patterns, base, content) is Ok,
        forall|k: int|
            0 <= k < listed_urls(base, content).len() ==> !matches_any(
                patterns,
                #[trigger] listed_urls(base, content)[k],
            ),
    ensures
        media_outcome(patterns, base, content)->Ok_0.ads_count == 0,
        media_outcome(patterns, base, content)->Ok_0.segments.len() == listed_urls(
            base,
            content,
        ).len(),
{
    lemma_filter_accounts_for_all(patterns, base, content);
    lemma_count_ads_none(patterns, listed_urls(base, content));
}

/// A text that does not begin with `#EXTM3U` is no media playlist: parsing it
/// is a parse error, whatever else it holds.
pub proof fn lemma_media_needs_marker(
    patterns: Seq<Seq<char>>,
    base: Option<Seq<char>>,
    content: Seq<char>,
)
    requires
        !has_prefix(content, "#EXTM3U"@),
    ensures
        media_outcome(patterns, base, content) == Err::<PlaylistView, ErrorKind>(
            ErrorKind::ParseError,
        ),
{
}

/// A media playlist all of whose listed segments are advertisements, or which
/// lists none, is an empty error, provided that it begins with `#EXTM3U` and
/// every segment URL can be made absolute.
pub proof fn lemma_nothing_kept_is_empty(
    patterns: Seq<Seq<char>>,
    base: Option<Seq<char>>,
    content: Seq<char>,
)
    requires
        has_prefix(content, "#EXTM3U"@),
        media_scan(
            patterns,
            base,
            trimmed_lines(content),
            trimmed_lines(content).len() as int,
        ) is Ok,
        count_ads(patterns, listed_urls(base, content)) == listed_urls(base, content).len(),
    ensures
        media_outcome(patterns, base, content) == Err::<PlaylistView, ErrorKind>(
            ErrorKind::EmptyError,
        ),
{
    let all = trimmed_lines(content);
    lemma_scan_counts(patterns, base, all, all.len() as int);
}

/// Reads what stands between the first and the second colon of a line.
fn read_second_field(line: &[char]) -> (r: Option<Vec<char>>)
    ensures
        match r {
            Some(v) => second_field(line@) == Some(v@),
            None => second_field(line@) is None,
        },
{
    let parts = split_chars(line, ':');
    assert(rows(parts@).len() == parts@.len());
    if parts.len() < 2 {
        None
    } else {
        assert(rows(parts@)[1] == parts@[1]@);
        let v = &parts[1];
        Some(crate::text::copy_range(v.as_slice(), 0, v.len()))
    }
}

/// Reads the `u32` in the second field of a line.
pub(crate) fn read_field_u32(line: &[char], default: u32) -> (r: u32)
    ensures
        r == field_u32(line@, default),
{
    match read_second_field(line) {
        Some(v) => match parse_u32(v.as_slice()) {
            Some(x) => x,
            None => default,
        },
        None => default,
    }
}

/// Reads the `usize` in the second field of a line.
fn read_field_usize(line: &[char]) -> (r: usize)
    ensures
        r == field_usize(line@),
{
    match read_second_field(line) {
        Some(v) => match parse_usize(v.as_slice()) {
            Some(x) => x,
            None => 0,
        },
        None => 0,
    }
}

/// Reads the microseconds in the second field of a line.
fn read_field_micros(line: &[char]) -> (r: u64)
    ensures
        r == field_micros(line@),
{
    match read_second_field(line) {
        Some(v) => match parse_decimal_micros(v.as_slice()) {
            Some(x) => x,
            None => 0,
        },
        None => 0,
    }
}

/// Tells whether the second field of a line is `VOD`.
fn read_is_vod(line: &[char]) -> (r: bool)
    ensures
        r == (second_field(line@) == Some("VOD"@)),
{
    match read_second_field(line) {
        Some(v) => same_chars(v.as_slice(), "VOD"),
        None => false,
    }
}

/// What has been read of a media playlist, as the parser holds it.
struct Reading {
    version: u32,
    target_duration: u64,
    vod: bool,
    ended: bool,
    media_sequence: usize,
    discontinuity_sequence: usize,
    segments: Vec<M3u8Segment>,
    entries: usize,
    ads: usize,
    last_kept: bool,
    pending: Option<(u64, Option<String>)>,
}

impl View for Reading {
    type V = MediaScan;

    closed spec fn view(&self) -> MediaScan {
        MediaScan {
            version: self.version,
            target_duration: self.target_duration,
            vod: self.vod,
            ended: self.ended,
            media_sequence: self.media_sequence,
            discontinuity_sequence: self.discontinuity_sequence,
            segments: segment_views(self.segments@),
            entries: self.entries as nat,
            ads: self.ads as nat,
            last_kept: self.last_kept,
            pending: match self.pending {
                Some((duration, title)) => Some(
                    EntryInfo { duration, title: crate::types::text_of(title) },
                ),
                None => None,
            },
        }
    }
}

impl Reading {
    fn start() -> (r: Self)
        ensures
            r@ == MediaScan::start(),
    {
        let r = Reading {
            version: 1,
            target_duration: 0,
            vod: false,
            ended: false,
            media_sequence: 0,
            discontinuity_sequence: 0,
            segments: Vec::new(),
            entries: 0,
            ads: 0,
            last_kept: false,
            pending: None,
        };
        assert(segment_views(r.segments@) =~= Seq::empty());
        r
    }

    /// Takes in the header values of a trimmed line.
    fn read_header(&mut self, line: &[char])
        ensures
            final(self)@ == header_step(old(self)@, line@),
    {
        if starts_with(line, "#EXT-X-VERSION:") {
            self.version = read_field_u32(line, 1);
        }
        if starts_with(line, "#EXT-X-TARGETDURATION:") {
            self.target_duration = read_field_micros(line);
        }
        if starts_with(line, "#EXT-X-PLAYLIST-TYPE:") {
            self.vod = read_is_vod(line);
        }
        if starts_with(line, "#EXT-X-MEDIA-SEQUENCE:") {
            self.media_sequence = read_field_usize(line);
        }
        if starts_with(line, "#EXT-X-DISCONTINUITY-SEQUENCE:") {
            self.discontinuity_sequence = read_field_usize(line);
        }
        if starts_with(line, "#EXT-X-ENDLIST") {
            self.ended = true;
        }
    }

    /// Counts a segment entry as an advertisement.
    fn skip_entry(&mut self)
        requires
            old(self)@.entries < usize::MAX,
            old(self)@.ads < usize::MAX,
        ensures
            final(self)@ == (MediaScan {
                entries: old(self)@.entries + 1,
                ads: old(self)@.ads + 1,
                last_kept: false,
                pending: None,
                ..old(self)@
            }),
    {
        self.ads += 1;
        self.entries += 1;
        self.last_kept = false;
        self.pending = None;
    }

    /// Takes in the duration and title that an `#EXTINF` line gives.
    fn await_url(&mut self, duration: u64, title: Option<String>)
        ensures
            final(self)@ == (MediaScan {
                pending: Some(EntryInfo { duration, title: crate::types::text_of(title) }),
                ..old(self)@
            }),
    {
        self.pending = Some((duration, title));
    }

    /// Takes the duration and title that wait for their URL line.
    fn take_pending(&mut self) -> (r: Option<(u64, Option<String>)>)
        ensures
            match r {
                Some((duration, title)) => old(self)@.pending == Some(
                    EntryInfo { duration, title: crate::types::text_of(title) },
                ),
                None => old(self)@.pending is None,
            },
            final(self)@ == (MediaScan { pending: None, ..old(self)@ }),
    {
        let mut taken: Option<(u64, Option<String>)> = None;
        core::mem::swap(&mut taken, &mut self.pending);
        taken
    }

    /// Keeps the segment of a segment entry.
    fn keep_entry(&mut self, url: String, duration: u64, title: Option<String>)
        requires
            old(self)@.entries < usize::MAX,
        ensures
            final(self)@ == (MediaScan {
                segments: old(self)@.segments.push(
                    SegmentView {
                        url: url@,
                        duration: duration as nat,
                        sequence: old(self)@.entries,
                        title: crate::types::text_of(title),
                        byte_range: None,
                    },
                ),
                entries: old(self)@.entries + 1,
                last_kept: true,
                pending: None,
                ..old(self)@
            }),
    {
        self.pending = None;
        let segment = M3u8Segment { url, duration, sequence: self.entries, title, byte_range: None };
        proof {
            assert(segment_views(self.segments@.push(segment)) =~= segment_views(
                self.segments@,
            ).push(segment@));
        }
        self.segments.push(segment);
        self.entries += 1;
        self.last_kept = true;
    }

    /// Sets the byte range of the segment that was kept last.
    fn set_byte_range(&mut self, range: (usize, usize))
        requires
            old(self)@.segments.len() > 0,
        ensures
            final(self)@ == (MediaScan {
                segments: old(self)@.segments.drop_last().push(
                    SegmentView {
                        byte_range: Some((range.0 as nat, range.1 as nat)),
                        ..old(self)@.segments.last()
                    },
                ),
                ..old(self)@
            }),
    {
        let ghost before = self.segments@;
        let mut segment = self.segments.pop().unwrap();
        segment.byte_range = Some(range);
        proof {
            assert(segment_views(self.segments@.push(segment)) =~= segment_views(
                before,
            ).drop_last().push(segment@));
        }
        self.segments.push(segment);
    }
}

/// Reads media playlists.
pub struct MediaParser {
    content_parser: ContentParser,
}

impl MediaParser {
    /// The regular expressions that mark a URL as an advertisement.
    pub closed spec fn patterns(&self) -> Seq<Seq<char>> {
        self.content_parser.patterns()
    }

    /// Takes the patterns where each of them is a regular expression; a
    /// malformed one is a parse error.
    pub fn new(ad_filters: Vec<String>) -> (r: Result<Self, M3u8Error>)
        ensures
            r is Ok <==> all_compile(texts(ad_filters@)),
            r matches Ok(p) ==> p.patterns() == texts(ad_filters@),
            r matches Err(e) ==> e.kind() == ErrorKind::ParseError,
    {
        match ContentParser::new(ad_filters) {
            Ok(content_parser) => Ok(Self { content_parser }),
            Err(e) => Err(e),
        }
    }

    /// Reads offset and length from an `#EXT-X-BYTERANGE` line.
    pub fn parse_byte_range(&self, line: &[char]) -> (r: Option<(usize, usize)>)
        ensures
            r == byte_range_of(line@),
    {
        match strip_prefix_chars(line, "#EXT-X-BYTERANGE:") {
            Some(content) => {
                let parts = split_chars(content.as_slice(), '@');
                assert(rows(parts@).len() == parts@.len());
                assert(rows(parts@)[0] == parts@[0]@);
                if parts.len() == 1 {
                    match parse_usize(parts[0].as_slice()) {
                        Some(length) => Some((0, length)),
                        None => None,
                    }
                } else if parts.len() == 2 {
                    assert(rows(parts@)[1] == parts@[1]@);
                    match (parse_usize(parts[0].as_slice()), parse_usize(parts[1].as_slice())) {
                        (Some(length), Some(offset)) => Some((offset, length)),
                        _ => None,
                    }
                } else {
                    None
                }
            },
            None => None,
        }
    }

    /// Takes in one trimmed line.
    fn read_line(&self, reading: &mut Reading, line: &[char], base_url: Option<&BaseUrl>) -> (r:
        Result<(), M3u8Error>)
        requires
            old(reading)@.entries < usize::MAX,
            old(reading)@.ads <= old(reading)@.entries,
        ensures
            match r {
                Ok(()) => media_step(self.patterns(), base_view(base_url), old(reading)@, line@)
                    == Ok::<MediaScan, ErrorKind>(final(reading)@),
                Err(e) => media_step(self.patterns(), base_view(base_url), old(reading)@, line@)
                    == Err::<MediaScan, ErrorKind>(e.kind()),
            },
            final(reading)@.entries <= old(reading)@.entries + 1,
            final(reading)@.ads <= final(reading)@.entries,
    {
        if line.len() == 0 {
            return Ok(());
        }
        let was_kept = reading.last_kept && reading.segments.len() > 0;
        assert(was_kept == (reading@.last_kept && reading@.segments.len() > 0));
        let ghost before = reading@;
        reading.read_header(line);
        if !starts_with(line, "#") {
            match reading.take_pending() {
                Some((duration, title)) => {
                    let raw = string_from_chars(line);
                    let full = self.content_parser.build_full_url(raw.as_str(), base_url)?;
                    if self.content_parser.is_ad_url(full.as_str()) {
                        reading.skip_entry();
                    } else {
                        reading.keep_entry(full, duration, title);
                    }
                },
                None => {},
            }
        } else if starts_with(line, "#EXTINF:") {
            let (duration, title) = extinf_fields(line);
            reading.await_url(duration, title);
        } else if starts_with(line, "#EXT-X-BYTERANGE:") && was_kept {
            match self.parse_byte_range(line) {
                Some(range) => {
                    reading.set_byte_range(range);
                },
                None => {},
            }
        }
        Ok(())
    }

    /// Parses `content` as a media playlist. Relative segment URLs are
    /// resolved against `base_url`.
    pub fn parse(&self, content: &str, base_url: Option<&BaseUrl>) -> (r: Result<
        M3u8Playlist,
        M3u8Error,
    >)
        ensures
            match r {
                Ok(p) => media_outcome(self.patterns(), base_view(base_url), content@) == Ok::<
                    PlaylistView,
                    ErrorKind,
                >(p@),
                Err(e) => media_outcome(self.patterns(), base_view(base_url), content@) == Err::<
                    PlaylistView,
                    ErrorKind,
                >(e.kind()),
            },
    {
        let chars = to_chars(content);
        if !starts_with(chars.as_slice(), "#EXTM3U") {
            return Err(M3u8Error::ParseError("不是有效的 M3U8 文件".to_owned()));
        }
        let all = lines(chars.as_slice());
        let n = all.len();
        let ghost patterns = self.patterns();
        let ghost base = base_view(base_url);
        let ghost tl = trimmed_lines(content@);
        assert(tl.len() == n);
        let mut reading = Reading::start();
        let mut i: usize = 0;
        while i < n
            invariant
                i <= n == all@.len(),
                has_prefix(content@, "#EXTM3U"@),
                rows(all@) == split_lines(content@),
                tl == trimmed_lines(content@),
                patterns == self.patterns(),
                base == base_view(base_url),
                reading@.entries <= i,
                reading@.ads <= reading@.entries,
                media_scan(patterns, base, tl, i as int) == Ok::<MediaScan, ErrorKind>(reading@),
            decreases n - i,
        {
            let line = trim_chars(all[i].as_slice());
            assert(line@ == tl[i as int]);
            match self.read_line(&mut reading, line.as_slice(), base_url) {
                Ok(()) => {},
                Err(e) => {
                    proof {
                        lemma_scan_failure_stays(patterns, base, tl, i + 1, n as int);
                    }
                    return Err(e);
                },
            }
            i += 1;
        }
        if reading.segments.len() == 0 {
            return Err(M3u8Error::EmptyError("未找到有效的视频片段".to_owned()));
        }
        let playlist = M3u8Playlist {
            segments: reading.segments,
            variants: Vec::new(),
            playlist_type: PlaylistType::Media,
            target_duration: reading.target_duration,
            version: reading.version,
            is_live: !reading.ended && !reading.vod,
            ads_count: reading.ads,
            media_sequence: reading.media_sequence,
            discontinuity_sequence: reading.discontinuity_sequence,
        };
        assert(playlist@.variants =~= Seq::empty());
        Ok(playlist)
    }
}

} // verus!
