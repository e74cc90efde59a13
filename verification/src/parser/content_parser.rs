use crate::error::{ErrorKind, M3u8Error};
use crate::link::{base_view, describe, join, url_join, BaseUrl};
use crate::number::{
    micros_or_zero, parse_decimal_micros, parse_u32, parse_u32_spec,
};
use crate::pattern::{all_compile, any_match, check_patterns, matches_any, texts};
use crate::text::{
    has_prefix, lines, rows, split, split_chars, split_lines,
    starts_with, string_from_chars, strip_prefix, strip_prefix_chars, to_chars, trim, trim_char,
    trim_chars, trim_matches,
};
use crate::types::{text_of, PlaylistType};
use vstd::prelude::*;

verus! {

/// Whether a line marks its playlist as a master playlist: it announces a
/// variant stream.
pub open spec fn is_master_line(line: Seq<char>) -> bool {
    has_prefix(line, "#EXT-X-STREAM-INF:"@)
}

/// Whether a line announces a media segment.
pub open spec fn is_segment_line(line: Seq<char>) -> bool {
    has_prefix(line, "#EXTINF:"@)
}

/// The kind of the playlist `content`: unknown unless it begins with
/// `#EXTM3U`; then master if a line marks it so, else media if a line
/// announces a segment.
pub open spec fn content_type(content: Seq<char>) -> PlaylistType {
    let all = split_lines(content);
    if !has_prefix(content, "#EXTM3U"@) {
        PlaylistType::Unknown
    } else if exists|i: int| 0 <= i < all.len() && is_master_line(#[trigger] all[i]) {
        PlaylistType::Master
    } else if exists|i: int| 0 <= i < all.len() && is_segment_line(#[trigger] all[i]) {
        PlaylistType::Media
    } else {
        PlaylistType::Unknown
    }
}

/// The absolute URL that the playlist entry `url` stands for: itself where it
/// begins with `http`, else what it denotes relative to `base`. Without a
/// base a relative entry is a parse error.
pub open spec fn resolve_url(url: Seq<char>, base: Option<Seq<char>>) -> Result<
    Seq<char>,
    ErrorKind,
> {
    if has_prefix(url, "http"@) {
        Ok(url)
    } else {
        match base {
            Some(b) => match url_join(b, url) {
                Some(u) => Ok(u),
                None => Err(ErrorKind::UrlParse),
            },
            None => Err(ErrorKind::ParseError),
        }
    }
}

/// What stands between the first and the second colon of `line`.
pub open spec fn second_field(line: Seq<char>) -> Option<Seq<char>> {
    let parts = split(line, ':');
    if parts.len() < 2 {
        None
    } else {
        Some(parts[1])
    }
}

/// The play time that an `#EXTINF` line gives, in microseconds: the decimal
/// number before the first comma of its second field, 0 where that is none.
pub open spec fn extinf_duration(line: Seq<char>) -> u64 {
    match second_field(line) {
        Some(body) => micros_or_zero(split(body, ',')[0]),
        None => 0,
    }
}

/// The title that an `#EXTINF` line gives: what stands between the first and
/// the second comma of its second field, trimmed.
pub open spec fn extinf_title(line: Seq<char>) -> Option<Seq<char>> {
    match second_field(line) {
        Some(body) => {
            let fields = split(body, ',');
            if fields.len() >= 2 {
                Some(trim(fields[1]))
            } else {
                None
            }
        },
        None => None,
    }
}

/// The attributes of an `#EXT-X-STREAM-INF` line: what follows the tag, cut at
/// every comma.
pub open spec fn stream_inf_attributes(line: Seq<char>) -> Seq<Seq<char>> {
    match strip_prefix(line, "#EXT-X-STREAM-INF:"@) {
        Some(rest) => split(rest, ','),
        None => split(line, ','),
    }
}

/// The bandwidth that the first `n` attributes give: the number of the last
/// `BANDWIDTH=` among them, if it is one.
pub open spec fn bandwidth_upto(attrs: Seq<Seq<char>>, n: int) -> Option<u32>
    decreases n,
{
    if n <= 0 {
        None
    } else {
        match strip_prefix(attrs[n - 1], "BANDWIDTH="@) {
            Some(v) => parse_u32_spec(v),
            None => bandwidth_upto(attrs, n - 1),
        }
    }
}

/// The width and height that `value` writes as `WIDTHxHEIGHT`.
pub open spec fn resolution_of(value: Seq<char>) -> Option<(u32, u32)> {
    let parts = split(value, 'x');
    if parts.len() == 2 {
        match (parse_u32_spec(parts[0]), parse_u32_spec(parts[1])) {
            (Some(w), Some(h)) => Some((w, h)),
            _ => None,
        }
    } else {
        None
    }
}

/// The resolution that the first `n` attributes give: that of the last
/// well-formed `RESOLUTION=` among them.
pub open spec fn resolution_upto(attrs: Seq<Seq<char>>, n: int) -> Option<(u32, u32)>
    decreases n,
{
    if n <= 0 {
        None
    } else {
        match strip_prefix(attrs[n - 1], "RESOLUTION="@) {
            Some(v) => match resolution_of(v) {
                Some(r) => Some(r),
                None => resolution_upto(attrs, n - 1),
            },
            None => resolution_upto(attrs, n - 1),
        }
    }
}

/// The codecs that the first `n` attributes give: the value of the last
/// `CODECS=` among them, without the quotes around it.
pub open spec fn codecs_upto(attrs: Seq<Seq<char>>, n: int) -> Option<Seq<char>>
    decreases n,
{
    if n <= 0 {
        None
    } else {
        match strip_prefix(attrs[n - 1], "CODECS="@) {
            Some(v) => Some(trim_matches(v, '"')),
            None => codecs_upto(attrs, n - 1),
        }
    }
}

/// The bandwidth that an `#EXT-X-STREAM-INF` line gives.
pub open spec fn stream_inf_bandwidth(line: Seq<char>) -> Option<u32> {
    bandwidth_upto(stream_inf_attributes(line), stream_inf_attributes(line).len() as int)
}

/// The resolution that an `#EXT-X-STREAM-INF` line gives.
pub open spec fn stream_inf_resolution(line: Seq<char>) -> Option<(u32, u32)> {
    resolution_upto(stream_inf_attributes(line), stream_inf_attributes(line).len() as int)
}

/// The codecs that an `#EXT-X-STREAM-INF` line gives.
pub open spec fn stream_inf_codecs(line: Seq<char>) -> Option<Seq<char>> {
    codecs_upto(stream_inf_attributes(line), stream_inf_attributes(line).len() as int)
}

/// Reads width and height from `WIDTHxHEIGHT`.
fn read_resolution(value: &[char]) -> (r: Option<(u32, u32)>)
    ensures
        r == resolution_of(value@),
{
    let parts = split_chars(value, 'x');
    assert(rows(parts@).len() == parts@.len());
    if parts.len() == 2 {
        assert(rows(parts@)[0] == parts@[0]@);
        assert(rows(parts@)[1] == parts@[1]@);
        match (parse_u32(parts[0].as_slice()), parse_u32(parts[1].as_slice())) {
            (Some(w), Some(h)) => Some((w, h)),
            _ => None,
        }
    } else {
        None
    }
}

/// Reads play time and title from the characters of an `#EXTINF` line.
pub fn extinf_fields(line: &[char]) -> (r: (u64, Option<String>))
    ensures
        r.0 == extinf_duration(line@),
        text_of(r.1) == extinf_title(line@),
{
    let parts = split_chars(line, ':');
    assert(rows(parts@).len() == parts@.len());
    if parts.len() < 2 {
        return (0, None);
    }
    assert(rows(parts@)[1] == parts@[1]@);
    let fields = split_chars(parts[1].as_slice(), ',');
    assert(rows(fields@).len() == fields@.len());
    assert(rows(fields@)[0] == fields@[0]@);
    let duration = match parse_decimal_micros(fields[0].as_slice()) {
        Some(v) => v,
        None => 0,
    };
    let title = if fields.len() >= 2 {
        assert(rows(fields@)[1] == fields@[1]@);
        let t = trim_chars(fields[1].as_slice());
        Some(string_from_chars(t.as_slice()))
    } else {
        None
    };
    (duration, title)
}

/// Reads bandwidth, resolution and codecs from the characters of an
/// `#EXT-X-STREAM-INF` line.
pub fn stream_inf_fields(line: &[char]) -> (r: (Option<u32>, Option<(u32, u32)>, Option<String>))
    ensures
        r.0 == stream_inf_bandwidth(line@),
        r.1 == stream_inf_resolution(line@),
        text_of(r.2) == stream_inf_codecs(line@),
{
    let attrs = match strip_prefix_chars(line, "#EXT-X-STREAM-INF:") {
        Some(rest) => split_chars(rest.as_slice(), ','),
        None => split_chars(line, ','),
    };
    let ghost all = stream_inf_attributes(line@);
    assert(rows(attrs@) == all);
    let mut bandwidth: Option<u32> = None;
    let mut resolution: Option<(u32, u32)> = None;
    let mut codecs: Option<String> = None;
    let mut i: usize = 0;
    while i < attrs.len()
        invariant
            i <= attrs@.len(),
            rows(attrs@) == all,
            bandwidth == bandwidth_upto(all, i as int),
            resolution == resolution_upto(all, i as int),
            text_of(codecs) == codecs_upto(all, i as int),
        decreases attrs@.len() - i,
    {
        let attr = attrs[i].as_slice();
        assert(all[i as int] == attr@);
        match strip_prefix_chars(attr, "BANDWIDTH=") {
            Some(v) => {
                bandwidth = parse_u32(v.as_slice());
            },
            None => {},
        }
        match strip_prefix_chars(attr, "RESOLUTION=") {
            Some(v) => {
                match read_resolution(v.as_slice()) {
                    Some(r) => {
                        resolution = Some(r);
                    },
                    None => {},
                }
            },
            None => {},
        }
        match strip_prefix_chars(attr, "CODECS=") {
            Some(v) => {
                let t = trim_char(v.as_slice(), '"');
                codecs = Some(string_from_chars(t.as_slice()));
            },
            None => {},
        }
        i += 1;
    }
    (bandwidth, resolution, codecs)
}

/// Tells the kind of a playlist from its lines.
#[verifier::loop_isolation(false)]
pub(crate) fn classify(content: &[char], all: &Vec<Vec<char>>) -> (t: PlaylistType)
    requires
        rows(all@) == split_lines(content@),
    ensures
        t == content_type(content@),
{
    if !starts_with(content, "#EXTM3U") {
        return PlaylistType::Unknown;
    }
    let mut i: usize = 0;
    while i < all.len()
        invariant
            i <= all@.len(),
            forall|k: int| 0 <= k < i ==> !is_master_line(#[trigger] rows(all@)[k]),
        decreases all@.len() - i,
    {
        let line = all[i].as_slice();
        assert(rows(all@)[i as int] == line@);
        if starts_with(line, "#EXT-X-STREAM-INF:") {
            return PlaylistType::Master;
        }
        i += 1;
    }
    let mut j: usize = 0;
    while j < all.len()
        invariant
            j <= all@.len(),
            forall|k: int| 0 <= k < j ==> !is_segment_line(#[trigger] rows(all@)[k]),
        decreases all@.len() - j,
    {
        let line = all[j].as_slice();
        assert(rows(all@)[j as int] == line@);
        if starts_with(line, "#EXTINF:") {
            return PlaylistType::Media;
        }
        j += 1;
    }
    PlaylistType::Unknown
}

/// Reads the lines of a playlist and tells advertisements from content.
pub struct ContentParser {
    ad_filters: Vec<String>,
}

impl ContentParser {
    /// The regular expressions that mark a URL as an advertisement.
    pub closed spec fn patterns(&self) -> Seq<Seq<char>> {
        texts(self.ad_filters@)
    }

    /// Whether `url` counts as an advertisement: one of the patterns matches
    /// somewhere in it.
    pub open spec fn is_ad(&self, url: Seq<char>) -> bool {
        matches_any(self.patterns(), url)
    }

    /// Takes the patterns where each of them is a regular expression; a
    /// malformed one is a parse error.
    pub fn new(ad_filters: Vec<String>) -> (r: Result<Self, M3u8Error>)
        ensures
            r is Ok <==> all_compile(texts(ad_filters@)),
            r matches Ok(p) ==> p.patterns() == texts(ad_filters@),
            r matches Err(e) ==> e.kind() == ErrorKind::ParseError,
    {
        if check_patterns(&ad_filters) {
            Ok(Self { ad_filters })
        } else {
            Err(M3u8Error::ParseError("广告过滤规则不是有效的正则表达式".to_owned()))
        }
    }

    /// Tells the kind of the playlist `content`.
    pub fn parse_content_type(&self, content: &str) -> (t: PlaylistType)
        ensures
            t == content_type(content@),
    {
        let chars = to_chars(content);
        let all = lines(chars.as_slice());
        classify(chars.as_slice(), &all)
    }

    /// Tells whether `url` is an advertisement.
    pub fn is_ad_url(&self, url: &str) -> (b: bool)
        ensures
            b == self.is_ad(url@),
    {
        any_match(&self.ad_filters, url)
    }

    /// Makes the playlist entry `url` absolute.
    pub fn build_full_url(&self, url: &str, base_url: Option<&BaseUrl>) -> (r: Result<
        String,
        M3u8Error,
    >)
        ensures
            match r {
                Ok(u) => resolve_url(url@, base_view(base_url)) == Ok::<Seq<char>, ErrorKind>(u@),
                Err(e) => resolve_url(url@, base_view(base_url)) == Err::<Seq<char>, ErrorKind>(
                    e.kind(),
                ),
            },
    {
        let chars = to_chars(url);
        if starts_with(chars.as_slice(), "http") {
            Ok(url.to_owned())
        } else {
            match base_url {
                Some(base) => match join(base.as_str(), url) {
                    Ok(u) => Ok(u),
                    Err(e) => Err(M3u8Error::UrlParse(describe(&e))),
                },
                None => Err(
                    M3u8Error::ParseError("视频片段为相对URL，请手动配置 base_url".to_owned()),
                ),
            }
        }
    }

    /// Reads play time, in microseconds, and title from an `#EXTINF` line.
    pub fn parse_extinf_line(&self, line: &str) -> (r: (u64, Option<String>))
        ensures
            r.0 == extinf_duration(line@),
            text_of(r.1) == extinf_title(line@),
    {
        let chars = to_chars(line);
        extinf_fields(chars.as_slice())
    }

    /// Reads bandwidth, resolution and codecs from an `#EXT-X-STREAM-INF`
    /// line.
    pub fn parse_stream_inf_line(&self, line: &str) -> (r: (
        Option<u32>,
        Option<(u32, u32)>,
        Option<String>,
    ))
        ensures
            r.0 == stream_inf_bandwidth(line@),
            r.1 == stream_inf_resolution(line@),
            text_of(r.2) == stream_inf_codecs(line@),
    {
        let chars = to_chars(line);
        stream_inf_fields(chars.as_slice())
    }
}

} // verus!
