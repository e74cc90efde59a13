use crate::error::{ErrorKind, M3u8Error};
use crate::link::{base_view, BaseUrl};
use crate::parser::content_parser::{
    resolve_url, stream_inf_bandwidth, stream_inf_codecs, stream_inf_fields,
    stream_inf_resolution, ContentParser,
};
use crate::parser::media_parser::{field_u32, trimmed_lines};
use crate::pattern::{all_compile, matches_any, texts};
use crate::text::{
    has_prefix, lines, rows, split_lines, starts_with, string_from_chars, to_chars, trim_chars,
};
use crate::types::{
    text_of, variant_views, M3u8Playlist, M3u8Variant, PlaylistType, PlaylistView, VariantView,
};
use vstd::prelude::*;

verus! {

/// What an `#EXT-X-STREAM-INF` line says of the variant whose URL follows.
pub struct StreamInfo {
    pub bandwidth: Option<u32>,
    pub resolution: Option<(u32, u32)>,
    pub codecs: Option<Seq<char>>,
}

/// What has been read of a master playlist after some of its lines.
pub struct MasterScan {
    pub version: u32,
    /// The variants kept so far.
    pub variants: Seq<VariantView>,
    /// The stream information that still waits for its URL line.
    pub pending: Option<StreamInfo>,
}

impl MasterScan {
    /// Before the first line: version 1, nothing else.
    pub open spec fn start() -> MasterScan {
        MasterScan { version: 1, variants: Seq::empty(), pending: None }
    }

    /// The playlist that the scan amounts to.
    pub open spec fn playlist(self) -> PlaylistView {
        PlaylistView {
            variants: self.variants,
            version: self.version as nat,
            ..PlaylistView::empty(PlaylistType::Master)
        }
    }
}

/// The scan after the trimmed line `line`. A stream-information line waits for
/// the next line that is no comment: that line is the variant's URL, which is
/// made absolute; the variant is dropped where a pattern matches the URL.
pub open spec fn master_step(
    patterns: Seq<Seq<char>>,
    base: Option<Seq<char>>,
    st: MasterScan,
    line: Seq<char>,
) -> Result<MasterScan, ErrorKind> {
    if line.len() == 0 || has_prefix(line, "#EXTM3U"@) {
        Ok(st)
    } else if has_prefix(line, "#EXT-X-VERSION:"@) {
        Ok(MasterScan { version: field_u32(line, 1), ..st })
    } else if has_prefix(line, "#EXT-X-STREAM-INF:"@) {
        Ok(
            MasterScan {
                pending: Some(
                    StreamInfo {
                        bandwidth: stream_inf_bandwidth(line),
                        resolution: stream_inf_resolution(line),
                        codecs: stream_inf_codecs(line),
                    },
                ),
                ..st
            },
        )
    } else if !has_prefix(line, "#"@) && st.pending is Some {
        match resolve_url(line, base) {
            Err(k) => Err(k),
            Ok(full) => if matches_any(patterns, full) {
                Ok(MasterScan { pending: None, ..st })
            } else {
                Ok(
                    MasterScan {
                        variants: st.variants.push(
                            VariantView {
                                url: full,
                                bandwidth: st.pending->0.bandwidth,
                                resolution: st.pending->0.resolution,
                                codecs: st.pending->0.codecs,
                                audio: None,
                                video: None,
                                subtitles: None,
                            },
                        ),
                        pending: None,
                        ..st
                    },
                )
            },
        }
    } else {
        Ok(st)
    }
}

/// The scan after the first `n` of the trimmed lines `all`; the first failure
/// ends it.
pub open spec fn master_scan(
    patterns: Seq<Seq<char>>,
    base: Option<Seq<char>>,
    all: Seq<Seq<char>>,
    n: int,
) -> Result<MasterScan, ErrorKind>
    decreases n,
{
    if n <= 0 {
        Ok(MasterScan::start())
    } else {
        match master_scan(patterns, base, all, n - 1) {
            Err(k) => Err(k),
            Ok(st) => master_step(patterns, base, st, all[n - 1]),
        }
    }
}

/// What parsing `content` as a master playlist gives: a parse error unless it
/// begins with `#EXTM3U`, the first failure to make a variant URL absolute,
/// an empty error where no variant is kept, and else the playlist.
pub open spec fn master_outcome(
    patterns: Seq<Seq<char>>,
    base: Option<Seq<char>>,
    content: Seq<char>,
) -> Result<PlaylistView, ErrorKind> {
    let all = trimmed_lines(content);
    if !has_prefix(content, "#EXTM3U"@) {
        Err(ErrorKind::ParseError)
    } else {
        match master_scan(patterns, base, all, all.len() as int) {
            Err(k) => Err(k),
            Ok(st) => if st.variants.len() == 0 {
                Err(ErrorKind::EmptyError)
            } else {
                Ok(st.playlist())
            },
        }
    }
}

/// A scan that has failed stays failed.
pub proof fn lemma_master_failure_stays(
    patterns: Seq<Seq<char>>,
    base: Option<Seq<char>>,
    all: Seq<Seq<char>>,
    m: int,
    n: int,
)
    requires
        0 <= m <= n,
        master_scan(patterns, base, all, m) is Err,
    ensures
        master_scan(patterns, base, all, n) == master_scan(patterns, base, all, m),
    decreases n - m,
{
    if m < n {
        lemma_master_failure_stays(patterns, base, all, m, n - 1);
    }
}

/// A text that does not begin with `#EXTM3U` is no master playlist: parsing
/// it is a parse error, whatever else it holds.
pub proof fn lemma_master_needs_marker(
    patterns: Seq<Seq<char>>,
    base: Option<Seq<char>>,
    content: Seq<char>,
)
    requires
        !has_prefix(content, "#EXTM3U"@),
    ensures
        master_outcome(patterns, base, content) == Err::<PlaylistView, ErrorKind>(
            ErrorKind::ParseError,
        ),
{
}

/// No variant that a master scan keeps is matched by a pattern.
pub proof fn lemma_master_keeps_no_ad(
    patterns: Seq<Seq<char>>,
    base: Option<Seq<char>>,
    all: Seq<Seq<char>>,
    n: int,
)
    requires
        master_scan(patterns, base, all, n) is Ok,
    ensures
        forall|j: int|
            0 <= j < master_scan(patterns, base, all, n)->Ok_0.variants.len() ==> !matches_any(
                patterns,
                (#[trigger] master_scan(patterns, base, all, n)->Ok_0.variants[j]).url,
            ),
    decreases n,
{
    if n > 0 {
        lemma_master_keeps_no_ad(patterns, base, all, n - 1);
    }
}

/// The bandwidth by which variants are ranked: 0 where none is given.
pub open spec fn effective_bandwidth(v: VariantView) -> u32 {
    match v.bandwidth {
        Some(b) => b,
        None => 0,
    }
}

/// Whether `best` is the first of `variants` with the greatest bandwidth; 0
/// where there are none.
pub open spec fn is_best_quality(variants: Seq<VariantView>, best: int) -> bool {
    if variants.len() == 0 {
        best == 0
    } else {
        &&& 0 <= best < variants.len()
        &&& forall|j: int|
            0 <= j < variants.len() ==> effective_bandwidth(#[trigger] variants[j])
                <= effective_bandwidth(variants[best])
        &&& forall|j: int|
            0 <= j < best ==> effective_bandwidth(#[trigger] variants[j]) < effective_bandwidth(
                variants[best],
            )
    }
}

/// The greatest bandwidth does not depend on the order of the variants: where
/// two lists hold the same variants, each as often in one as in the other,
/// their best variants have the same bandwidth.
pub proof fn lemma_best_quality_any_order(
    a: Seq<VariantView>,
    b: Seq<VariantView>,
    best_a: int,
    best_b: int,
)
    requires
        a.to_multiset() == b.to_multiset(),
        a.len() > 0,
        is_best_quality(a, best_a),
        is_best_quality(b, best_b),
    ensures
        b.len() > 0,
        effective_bandwidth(a[best_a]) == effective_bandwidth(b[best_b]),
{
    a.to_multiset_ensures();
    b.to_multiset_ensures();
    assert(a.contains(a[best_a]));
    assert(a.to_multiset().count(a[best_a]) > 0);
    assert(b.contains(a[best_a]));
    let j = choose|j: int| 0 <= j < b.len() && b[j] == a[best_a];
    assert(effective_bandwidth(b[j]) <= effective_bandwidth(b[best_b]));
    assert(b.contains(b[best_b]));
    assert(b.to_multiset().count(b[best_b]) > 0);
    assert(a.contains(b[best_b]));
    let k = choose|k: int| 0 <= k < a.len() && a[k] == b[best_b];
    assert(effective_bandwidth(a[k]) <= effective_bandwidth(a[best_a]));
}

/// Reads master playlists.
pub struct MasterParser {
    content_parser: ContentParser,
}

impl MasterParser {
    /// The regular expressions that mark a URL as an advertisement.
    pub closed spec fn patterns(&self) -> Seq<Seq<char>> {
        self.content_parser.patterns()
    }

    /// Takes the patterns where each of them is a regular expression; a
    /// malformed one is a parse error.
    pub fn new(ad_filters: Vec<String>) -> (r: Result<Self, M3u8Error>)
        ensures
            r is Ok <==> all_compile(texts(ad_filters@)),
            r matches Ok(p) ==> p.patterns() == texts(ad_filters@),
            r matches Err(e) ==> e.kind() == ErrorKind::ParseError,
    {
        match ContentParser::new(ad_filters) {
            Ok(content_parser) => Ok(Self { content_parser }),
            Err(e) => Err(e),
        }
    }

    /// Parses `content` as a master playlist. Relative variant URLs are
    /// resolved against `base_url`.
    pub fn parse(&self, content: &str, base_url: Option<&BaseUrl>) -> (r: Result<
        M3u8Playlist,
        M3u8Error,
    >)
        ensures
            match r {
                Ok(p) => master_outcome(self.patterns(), base_view(base_url), content@) == Ok::<
                    PlaylistView,
                    ErrorKind,
                >(p@),
                Err(e) => master_outcome(self.patterns(), base_view(base_url), content@) == Err::<
                    PlaylistView,
                    ErrorKind,
                >(e.kind()),
            },
    {
        let chars = to_chars(content);
        if !starts_with(chars.as_slice(), "#EXTM3U") {
            return Err(M3u8Error::ParseError("不是有效的 M3U8 文件".to_owned()));
        }
        let all = lines(chars.as_slice());
        let n = all.len();
        let ghost patterns = self.patterns();
        let ghost base = base_view(base_url);
        let ghost tl = trimmed_lines(content@);
        assert(tl.len() == n);

        let mut playlist = M3u8Playlist::new(PlaylistType::Master);
        let mut pending: Option<(Option<u32>, Option<(u32, u32)>, Option<String>)> = None;
        let mut i: usize = 0;
        while i < n
            invariant
                i <= n == all@.len(),
                has_prefix(content@, "#EXTM3U"@),
                rows(all@) == split_lines(content@),
                tl == trimmed_lines(content@),
                patterns == self.patterns(),
                base == base_view(base_url),
                playlist@ == (PlaylistView {
                    variants: playlist@.variants,
                    version: playlist@.version,
                    ..PlaylistView::empty(PlaylistType::Master)
                }),
                master_scan(patterns, base, tl, i as int) == Ok::<MasterScan, ErrorKind>(
                    MasterScan {
                        version: playlist.version,
                        variants: playlist@.variants,
                        pending: match pending {
                            Some((bandwidth, resolution, codecs)) => Some(
                                StreamInfo { bandwidth, resolution, codecs: text_of(codecs) },
                            ),
                            None => None,
                        },
                    },
                ),
            decreases n - i,
        {
            let trimmed = trim_chars(all[i].as_slice());
            let line = trimmed.as_slice();
            assert(line@ == tl[i as int]);
            if line.len() == 0 || starts_with(line, "#EXTM3U") {
            } else if starts_with(line, "#EXT-X-VERSION:") {
                playlist.version = crate::parser::media_parser::read_field_u32(line, 1);
            } else if starts_with(line, "#EXT-X-STREAM-INF:") {
                pending = Some(stream_inf_fields(line));
            } else if !starts_with(line, "#") && pending.is_some() {
                let (bandwidth, resolution, codecs) = pending.unwrap();
                pending = None;
                let raw = string_from_chars(line);
                match self.content_parser.build_full_url(raw.as_str(), base_url) {
                    Err(e) => {
                        proof {
                            assert(master_scan(patterns, base, tl, i + 1) == Err::<
                                MasterScan,
                                ErrorKind,
                            >(e.kind()));
                            lemma_master_failure_stays(patterns, base, tl, i + 1, n as int);
                        }
                        return Err(e);
                    },
                    Ok(full) => {
                        if !self.content_parser.is_ad_url(full.as_str()) {
                            let variant = M3u8Variant {
                                url: full,
                                bandwidth,
                                resolution,
                                codecs,
                                audio: None,
                                video: None,
                                subtitles: None,
                            };
                            proof {
                                assert(variant_views(playlist.variants@.push(variant))
                                    =~= variant_views(playlist.variants@).push(variant@));
                            }
                            playlist.variants.push(variant);
                        }
                    },
                }
            }
            i += 1;
        }
        if playlist.variants.len() == 0 {
            return Err(M3u8Error::EmptyError("未找到有效的变体流".to_owned()));
        }
        Ok(playlist)
    }

    /// The index of the variant to prefer: the first one with the greatest
    /// bandwidth.
    pub fn get_best_quality_index(&self, playlist: &M3u8Playlist) -> (best: usize)
        ensures
            is_best_quality(playlist@.variants, best as int),
    {
        let ghost variants = playlist@.variants;
        let n = playlist.variants.len();
        let mut best_index: usize = 0;
        let mut best_bandwidth: u32 = 0;
        let mut i: usize = 0;
        while i < n
            invariant
                i <= n == playlist.variants@.len(),
                variants == playlist@.variants,
                i == 0 ==> best_index == 0 && best_bandwidth == 0,
                i > 0 ==> best_index < i && best_bandwidth == effective_bandwidth(
                    variants[best_index as int],
                ),
                forall|j: int|
                    0 <= j < i ==> effective_bandwidth(#[trigger] variants[j]) <= best_bandwidth,
                forall|j: int|
                    0 <= j < best_index ==> effective_bandwidth(#[trigger] variants[j])
                        < best_bandwidth,
            decreases n - i,
        {
            assert(variants[i as int] == playlist.variants@[i as int]@);
            let bandwidth = match playlist.variants[i].bandwidth {
                Some(b) => b,
                None => 0,
            };
            if bandwidth > best_bandwidth {
                best_bandwidth = bandwidth;
                best_index = i;
            }
            i += 1;
        }
        best_index
    }

    /// The index of the first variant with the given resolution.
    pub fn get_variant_by_resolution(
        &self,
        playlist: &M3u8Playlist,
        target_width: u32,
        target_height: u32,
    ) -> (r: Option<usize>)
        ensures
            match r {
                Some(k) => k < playlist@.variants.len() && playlist@.variants[k as int].resolution
                    == Some((target_width, target_height)) && forall|j: int|
                    0 <= j < k ==> (#[trigger] playlist@.variants[j]).resolution != Some(
                        (target_width, target_height),
                    ),
                None => forall|j: int|
                    0 <= j < playlist@.variants.len() ==> (#[trigger] playlist@.variants[j]).resolution
                        != Some((target_width, target_height)),
            },
    {
        let ghost variants = playlist@.variants;
        let n = playlist.variants.len();
        let mut i: usize = 0;
        while i < n
            invariant
                i <= n == playlist.variants@.len(),
                variants == playlist@.variants,
                forall|j: int|
                    0 <= j < i ==> (#[trigger] variants[j]).resolution != Some(
                        (target_width, target_height),
                    ),
            decreases n - i,
        {
            assert(variants[i as int] == playlist.variants@[i as int]@);
            match playlist.variants[i].resolution {
                Some((width, height)) => {
                    if width == target_width && height == target_height {
                        return Some(i);
                    }
                },
                None => {},
            }
            i += 1;
        }
        None
    }
}

} // verus!
