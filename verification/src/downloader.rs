use crate::error::{ErrorKind, M3u8Error};
use crate::headers::{parse_header, read_header};
use crate::number::{decimal_digits, push_decimal, push_padded, zero_padded};
use crate::parser::nested_parser::NestedParser;
use crate::pattern::{all_compile, check_patterns, texts};
use crate::proxy::{ProxyConfig, ProxyEntry};
use crate::scheduler::{needed_indices, DownloadOutcome, Scheduler};
use crate::text::{
    copy_strings, has_prefix, push_str, starts_with, string_from_chars, to_chars,
};
use crate::types::{
    capped_duration, segment_views, total_micros, M3u8Segment, NestedM3u8, SegmentView,
};
use reqwest::header::{HeaderMap, HeaderName, HeaderValue};
use std::path::PathBuf;
use std::str::FromStr;
use vstd::prelude::*;

verus! {

/// A path of the file system, as std holds it.
#[verifier::external_type_specification]
#[verifier::external_body]
pub struct ExPathBuf(PathBuf);

/// The play time `micros`, in microseconds, as hours, minutes and seconds,
/// each with at least two digits: `01:30:00 s`. Parts of a second are left
/// off.
pub open spec fn duration_text(micros: u64) -> Seq<char> {
    let seconds = (micros / 1_000_000) as nat;
    zero_padded(seconds / 3600, 2) + ":"@ + zero_padded((seconds % 3600) / 60, 2) + ":"@
        + zero_padded(seconds % 60, 2) + " s"@
}

/// Words the play time of the segments together.
pub fn format_duration(segments: &[M3u8Segment]) -> (s: String)
    ensures
        s@ == duration_text(capped_duration(segment_views(segments@))),
{
    let seconds: u64 = total_micros(segments) / 1_000_000;
    let mut text: Vec<char> = Vec::new();
    push_padded(&mut text, seconds / 3600, 2);
    push_str(&mut text, ":");
    push_padded(&mut text, (seconds % 3600) / 60, 2);
    push_str(&mut text, ":");
    push_padded(&mut text, seconds % 60, 2);
    push_str(&mut text, " s");
    assert(text@ =~= duration_text(capped_duration(segment_views(segments@))));
    string_from_chars(text.as_slice())
}

/// `size` in hundredths of `unit`, rounded to the nearest, and to the even
/// one where two are equally near.
pub open spec fn hundredths(size: u64, unit: u64) -> nat {
    let scaled = size * 100;
    let q = scaled / (unit as int);
    let r = scaled % (unit as int);
    if 2 * r > unit || (2 * r == unit && q % 2 == 1) {
        (q + 1) as nat
    } else {
        q as nat
    }
}

/// `size` in units of `unit`, with two decimal places.
pub open spec fn two_places(size: u64, unit: u64) -> Seq<char> {
    decimal_digits(hundredths(size, unit) / 100) + "."@ + zero_padded(
        hundredths(size, unit) % 100,
        2,
    )
}

/// A number of bytes in the largest of the units B, KB, MB and GB of which it
/// holds at least one, with two decimal places except for bytes; `suffix`
/// follows the unit.
pub open spec fn size_text(size: u64, suffix: Seq<char>) -> Seq<char> {
    if size >= 0x4000_0000 {
        two_places(size, 0x4000_0000u64) + "GB"@ + suffix
    } else if size >= 0x10_0000 {
        two_places(size, 0x10_0000u64) + "MB"@ + suffix
    } else if size >= 1024 {
        two_places(size, 1024u64) + "KB"@ + suffix
    } else {
        decimal_digits(size as nat) + "B"@ + suffix
    }
}

/// Appends `size` in units of `unit`, with two decimal places.
fn push_two_places(out: &mut Vec<char>, size: u64, unit: u64)
    requires
        unit > 0,
    ensures
        final(out)@ == old(out)@ + two_places(size, unit),
{
    let scaled: u128 = (size as u128) * 100;
    let q: u128 = scaled / (unit as u128);
    let r: u128 = scaled % (unit as u128);
    let h: u128 = if 2 * r > unit as u128 || (2 * r == unit as u128 && q % 2 == 1) {
        q + 1
    } else {
        q
    };
    assert(h == hundredths(size, unit));
    assert(h / 100 <= u64::MAX) by {
        assert(q <= size * 100);
    }
    let ghost before = out@;
    push_decimal(out, (h / 100) as u64);
    push_str(out, ".");
    push_padded(out, (h % 100) as u64, 2);
    assert(out@ =~= before + two_places(size, unit));
}

/// Words a number of bytes.
pub fn format_size(size: u64, suffix: Option<&str>) -> (s: String)
    ensures
        s@ == size_text(
            size,
            match suffix {
                Some(t) => t@,
                None => Seq::empty(),
            },
        ),
{
    let suffix = match suffix {
        Some(t) => t,
        None => "",
    };
    proof {
        reveal_strlit("");
        assert(""@ =~= Seq::<char>::empty());
    }
    let mut text: Vec<char> = Vec::new();
    if size >= 0x4000_0000 {
        push_two_places(&mut text, size, 0x4000_0000);
        push_str(&mut text, "GB");
    } else if size >= 0x10_0000 {
        push_two_places(&mut text, size, 0x10_0000);
        push_str(&mut text, "MB");
    } else if size >= 1024 {
        push_two_places(&mut text, size, 1024);
        push_str(&mut text, "KB");
    } else {
        push_decimal(&mut text, size);
        push_str(&mut text, "B");
    }
    push_str(&mut text, suffix);
    assert(text@ =~= size_text(size, suffix@));
    string_from_chars(text.as_slice())
}

/// The name under which `http` takes `name` as the name of a header: the
/// same in lower case where it is a valid name, none otherwise.
pub uninterp spec fn http_header_name(name: Seq<char>) -> Option<Seq<char>>;

/// Whether `value` can be the value of a header: each of its characters is
/// a tab, or is neither a control character of ASCII nor delete. This is
/// what the `http` crate takes as a value.
pub open spec fn http_value_ok(value: Seq<char>) -> bool {
    forall|i: int|
        0 <= i < value.len() ==> (#[trigger] value[i]) == '\t' || (value[i] as u32 >= 32
            && value[i] as u32 != 127)
}

/// Reads `name` with `http::header::HeaderName::from_str`, as `reqwest` hands
/// it on, and returns the text of the name that it gives, which is in lower
/// case. What is a valid name takes a table to say, so the result is named.
#[verifier::external_body]
pub(crate) fn normal_header_name(name: &str) -> (r: Option<String>)
    ensures
        match r {
            Some(n) => http_header_name(name@) == Some(n@),
            None => http_header_name(name@) is None,
        },
{
    HeaderName::from_str(name).ok().map(|n| n.as_str().to_owned())
}

/// Tells whether `value` can be the value of a header.
pub fn header_value_ok(value: &str) -> (ok: bool)
    ensures
        ok == http_value_ok(value@),
{
    let chars = to_chars(value);
    let mut i: usize = 0;
    while i < chars.len()
        invariant
            i <= chars@.len(),
            chars@ == value@,
            forall|k: int|
                0 <= k < i ==> (#[trigger] chars@[k]) == '\t' || (chars@[k] as u32 >= 32
                    && chars@[k] as u32 != 127),
        decreases chars@.len() - i,
    {
        let c = chars[i];
        if !(c == '\t' || (c as u32 >= 32 && c as u32 != 127)) {
            return false;
        }
        i += 1;
    }
    true
}

/// The header map of the `http` crate, as `reqwest` hands it on.
#[verifier::external_type_specification]
#[verifier::external_body]
#[verifier::reject_recursive_types(T)]
pub struct ExHeaderMap<T>(HeaderMap<T>);

/// The value of a header in the `http` crate.
#[verifier::external_type_specification]
#[verifier::external_body]
pub struct ExHeaderValue(HeaderValue);

/// The headers that a header map holds: each name, in lower case, with the
/// value that `HeaderMap::get` gives for it.
pub uninterp spec fn header_map_entries(map: HeaderMap) -> Map<Seq<char>, Seq<char>>;

/// No headers.
pub open spec fn no_headers() -> Map<Seq<char>, Seq<char>> {
    Map::empty()
}

/// Makes an empty header map with `HeaderMap::new`.
#[verifier::external_body]
pub(crate) fn empty_header_map() -> (map: HeaderMap)
    ensures
        header_map_entries(map) == no_headers(),
{
    HeaderMap::new()
}

/// Sets a header with `HeaderMap::try_insert`, and tells whether the map
/// took it. Name and value go through `HeaderName::from_str` and
/// `HeaderValue::from_str`. Where the map takes the header, the value stands
/// under the name in lower case, in place of any values that stood there;
/// the map refuses it, and stays as it is, where it cannot grow any more.
/// When that is so is the map's own affair.
#[verifier::external_body]
pub(crate) fn insert_header(map: &mut HeaderMap, name: &str, value: &str) -> (taken: bool)
    requires
        http_header_name(name@) is Some,
        http_value_ok(value@),
    ensures
        taken ==> header_map_entries(*final(map)) == header_map_entries(*old(map)).insert(
            http_header_name(name@)->0,
            value@,
        ),
        !taken ==> header_map_entries(*final(map)) == header_map_entries(*old(map)),
{
    match (HeaderName::from_str(name), HeaderValue::from_str(value)) {
        (Ok(n), Ok(v)) => map.try_insert(n, v).is_ok(),
        _ => false,
    }
}

/// The headers with `value` set under `name`, where both are valid; else
/// the headers as they are.
pub open spec fn with_pair(
    headers: Map<Seq<char>, Seq<char>>,
    name: Seq<char>,
    value: Seq<char>,
) -> Map<Seq<char>, Seq<char>> {
    match http_header_name(name) {
        Some(n) => if http_value_ok(value) {
            headers.insert(n, value)
        } else {
            headers
        },
        None => headers,
    }
}

/// The headers that go with every request unless the caller says otherwise.
pub open spec fn base_headers() -> Map<Seq<char>, Seq<char>> {
    with_pair(
        with_pair(
            with_pair(
                no_headers(),
                "user-agent"@,
                "Mozilla/5.0 (Windows NT 10.0; Win64; x64) AppleWebKit/537.36 (KHTML, like Gecko) Chrome/91.0.4472.124 Safari/537.36"@,
            ),
            "accept"@,
            "*/*"@,
        ),
        "accept-encoding"@,
        "gzip, deflate, br"@,
    )
}

/// The headers after the line `line` of the form `Name: Value`: the header is
/// set under its name in lower case, where name and value are valid; else
/// nothing changes.
pub open spec fn with_custom_header(headers: Map<Seq<char>, Seq<char>>, line: Seq<char>) -> Map<
    Seq<char>,
    Seq<char>,
> {
    match parse_header(line) {
        Some((name, value)) => with_pair(headers, name, value),
        None => headers,
    }
}

/// The headers of the requests: the usual ones, and then the first `n` of
/// the caller's lines applied in turn.
pub open spec fn request_headers(lines: Seq<Seq<char>>, n: int) -> Map<Seq<char>, Seq<char>>
    decreases n,
{
    if n <= 0 {
        base_headers()
    } else {
        with_custom_header(request_headers(lines, n - 1), lines[n - 1])
    }
}

/// Sets `value` under `name` where both are valid, and tells whether the map
/// went along: it is false only where the map refused a valid header.
pub fn put_header(map: &mut HeaderMap, name: &str, value: &str) -> (ok: bool)
    ensures
        ok ==> header_map_entries(*final(map)) == with_pair(
            header_map_entries(*old(map)),
            name@,
            value@,
        ),
        !ok ==> header_map_entries(*final(map)) == header_map_entries(*old(map))
            && http_header_name(name@) is Some && http_value_ok(value@),
{
    match normal_header_name(name) {
        Some(_) => {
            if header_value_ok(value) {
                insert_header(map, name, value)
            } else {
                true
            }
        },
        None => true,
    }
}

/// Builds the headers of the requests; none where the map refused one of
/// them.
pub fn build_request_headers(custom_headers: &Vec<String>) -> (r: Option<HeaderMap>)
    ensures
        r matches Some(h) ==> header_map_entries(h) == request_headers(
            texts(custom_headers@),
            custom_headers@.len() as int,
        ),
{
    let ghost lines = texts(custom_headers@);
    let mut h = empty_header_map();
    if !put_header(
        &mut h,
        "user-agent",
        "Mozilla/5.0 (Windows NT 10.0; Win64; x64) AppleWebKit/537.36 (KHTML, like Gecko) Chrome/91.0.4472.124 Safari/537.36",
    ) {
        return None;
    }
    if !put_header(&mut h, "accept", "*/*") {
        return None;
    }
    if !put_header(&mut h, "accept-encoding", "gzip, deflate, br") {
        return None;
    }
    let mut i: usize = 0;
    while i < custom_headers.len()
        invariant
            i <= custom_headers@.len(),
            lines == texts(custom_headers@),
            header_map_entries(h) == request_headers(lines, i as int),
        decreases custom_headers@.len() - i,
    {
        assert(lines[i as int] == custom_headers@[i as int]@);
        match read_header(custom_headers[i].as_str()) {
            Some((name, value)) => {
                if !put_header(&mut h, name.as_str(), value.as_str()) {
                    return None;
                }
            },
            None => {},
        }
        i += 1;
    }
    Some(h)
}

/// The words that sum up a playlist before it is downloaded: how many
/// segments, how long, how many advertisements were filtered out if any, and
/// whether it is a live stream.
pub open spec fn summary_text(
    segments: Seq<SegmentView>,
    ads_count: nat,
    is_live: bool,
) -> Seq<char> {
    "📊 "@ + decimal_digits(segments.len()) + " 个片段, 🕒 "@ + duration_text(
        capped_duration(segments),
    ) + (if ads_count > 0 {
        ", 🚫 广告 "@ + decimal_digits(ads_count) + " 个"@
    } else {
        Seq::empty()
    }) + (if is_live {
        ", 📡 直播流"@
    } else {
        Seq::empty()
    })
}

/// Downloads the media of a playlist: what to download and how.
pub struct M3u8Downloader {
    url: String,
    output_path: PathBuf,
    temp_dir: PathBuf,
    concurrent_limit: usize,
    keep_temp: bool,
    proxy_config: Option<ProxyConfig>,
    max_retries: usize,
    base_url: Option<String>,
    headers: HeaderMap,
    ad_filters: Vec<String>,
    simple: bool,
}

impl M3u8Downloader {
    /// The source of the playlist.
    pub closed spec fn source(&self) -> Seq<char> {
        self.url@
    }

    /// The headers that go with every request.
    pub closed spec fn request_header_list(&self) -> Map<Seq<char>, Seq<char>> {
        header_map_entries(self.headers)
    }

    /// The patterns that mark a URL as an advertisement.
    pub closed spec fn patterns(&self) -> Seq<Seq<char>> {
        texts(self.ad_filters@)
    }

    /// How many segments may be fetched at the same time.
    pub closed spec fn workers(&self) -> usize {
        self.concurrent_limit
    }

    /// How often the fetch of one segment is tried.
    pub closed spec fn retries(&self) -> usize {
        self.max_retries
    }

    /// Where the output is written.
    pub closed spec fn target(&self) -> PathBuf {
        self.output_path
    }

    /// Where the segments are kept until they are merged.
    pub closed spec fn workspace(&self) -> PathBuf {
        self.temp_dir
    }

    /// Whether the segments are kept after the merge.
    pub closed spec fn keeps_segments(&self) -> bool {
        self.keep_temp
    }

    /// Whether the segments are merged byte by byte, without the transcoder.
    pub closed spec fn merges_plainly(&self) -> bool {
        self.simple
    }

    /// The base for relative URLs in a playlist that is read from a file.
    pub closed spec fn base(&self) -> Option<Seq<char>> {
        crate::types::text_of(self.base_url)
    }

    /// The proxies among which the requests are spread; none where they go
    /// the direct path.
    pub closed spec fn proxies(&self) -> Option<Seq<ProxyEntry>> {
        match self.proxy_config {
            Some(c) => Some(c.entries()),
            None => None,
        }
    }

    /// Sets up a download. A filter pattern that is no regular expression is
    /// a parse error, so that nothing is fetched on a faulty configuration.
    /// The custom headers are lines of the form `Name: Value`; those that are
    /// no valid header are passed over. Where the header map refuses a valid
    /// header, that is a configuration error.
    pub fn new(
        url: String,
        output_path: PathBuf,
        temp_dir: PathBuf,
        concurrent_limit: usize,
        keep_temp: bool,
        proxy_config: Option<ProxyConfig>,
        max_retries: usize,
        base_url: Option<String>,
        custom_headers: Vec<String>,
        ad_filters: Vec<String>,
        simple: bool,
    ) -> (r: Result<Self, M3u8Error>)
        ensures
            !all_compile(texts(ad_filters@)) ==> r is Err,
            r matches Err(e) ==> e.kind() == if all_compile(texts(ad_filters@)) {
                ErrorKind::ConfigError
            } else {
                ErrorKind::ParseError
            },
            r matches Ok(d) ==> {
                &&& d.source() == url@
                &&& d.patterns() == texts(ad_filters@)
                &&& d.workers() == concurrent_limit
                &&& d.retries() == max_retries
                &&& d.target() == output_path
                &&& d.workspace() == temp_dir
                &&& d.keeps_segments() == keep_temp
                &&& d.merges_plainly() == simple
                &&& d.base() == crate::types::text_of(base_url)
                &&& d.proxies() == match proxy_config {
                    Some(c) => Some(c.entries()),
                    None => None,
                }
                &&& d.request_header_list() == request_headers(
                    texts(custom_headers@),
                    custom_headers@.len() as int,
                )
            },
    {
        let headers = build_request_headers(&custom_headers);
        Self::with_headers(
            url,
            output_path,
            temp_dir,
            concurrent_limit,
            keep_temp,
            proxy_config,
            max_retries,
            base_url,
            headers,
            ad_filters,
            simple,
        )
    }

    /// Sets up a download that sends the given headers. A filter pattern
    /// that is no regular expression is a parse error; with sound patterns,
    /// missing headers are a configuration error.
    pub fn with_headers(
        url: String,
        output_path: PathBuf,
        temp_dir: PathBuf,
        concurrent_limit: usize,
        keep_temp: bool,
        proxy_config: Option<ProxyConfig>,
        max_retries: usize,
        base_url: Option<String>,
        headers: Option<HeaderMap>,
        ad_filters: Vec<String>,
        simple: bool,
    ) -> (r: Result<Self, M3u8Error>)
        ensures
            r is Ok <==> all_compile(texts(ad_filters@)) && headers is Some,
            r matches Err(e) ==> e.kind() == if all_compile(texts(ad_filters@)) {
                ErrorKind::ConfigError
            } else {
                ErrorKind::ParseError
            },
            r matches Ok(d) ==> {
                &&& d.source() == url@
                &&& d.patterns() == texts(ad_filters@)
                &&& d.workers() == concurrent_limit
                &&& d.retries() == max_retries
                &&& d.target() == output_path
                &&& d.workspace() == temp_dir
                &&& d.keeps_segments() == keep_temp
                &&& d.merges_plainly() == simple
                &&& d.base() == crate::types::text_of(base_url)
                &&& d.proxies() == match proxy_config {
                    Some(c) => Some(c.entries()),
                    None => None,
                }
                &&& d.request_header_list() == header_map_entries(headers->0)
            },
    {
        if !check_patterns(&ad_filters) {
            return Err(M3u8Error::ParseError("广告过滤规则不是有效的正则表达式".to_owned()));
        }
        let headers = match headers {
            Some(h) => h,
            None => {
                return Err(M3u8Error::ConfigError("请求头过多".to_owned()));
            },
        };
        Ok(
            Self {
                url,
                output_path,
                temp_dir,
                concurrent_limit,
                keep_temp,
                proxy_config,
                max_retries,
                base_url,
                headers,
                ad_filters,
                simple,
            },
        )
    }

    /// The source of the playlist: a URL or the path of a file.
    pub fn url(&self) -> (s: &str)
        ensures
            s@ == self.source(),
    {
        self.url.as_str()
    }

    /// Tells whether the playlist is to be fetched over the network: that is
    /// so where its source begins with `http`; else it is read from a file.
    pub fn is_remote(&self) -> (b: bool)
        ensures
            b == has_prefix(self.source(), "http"@),
    {
        let chars = to_chars(self.url.as_str());
        starts_with(chars.as_slice(), "http")
    }

    /// Where the output is written.
    pub fn output_path(&self) -> (p: &PathBuf)
        ensures
            *p == self.target(),
    {
        &self.output_path
    }

    /// Where the segments are kept until they are merged.
    pub fn temp_dir(&self) -> (p: &PathBuf)
        ensures
            *p == self.workspace(),
    {
        &self.temp_dir
    }

    /// How many segments may be fetched at the same time.
    pub fn concurrent_limit(&self) -> (n: usize)
        ensures
            n == self.workers(),
    {
        self.concurrent_limit
    }

    /// Whether the segments are kept after the merge.
    pub fn keep_temp(&self) -> (b: bool)
        ensures
            b == self.keeps_segments(),
    {
        self.keep_temp
    }

    /// Whether the segments are merged byte by byte, without the transcoder.
    pub fn simple(&self) -> (b: bool)
        ensures
            b == self.merges_plainly(),
    {
        self.simple
    }

    /// How often the fetch of one segment is tried.
    pub fn max_retries(&self) -> (n: usize)
        ensures
            n == self.retries(),
    {
        self.max_retries
    }

    /// The base for relative URLs in a playlist that is read from a file.
    pub fn base_url(&self) -> (r: Option<&str>)
        ensures
            crate::parser::nested_parser::slice_text(r) == self.base(),
    {
        match &self.base_url {
            Some(b) => Some(b.as_str()),
            None => None,
        }
    }

    /// The headers that go with every request.
    pub fn headers(&self) -> (h: &HeaderMap)
        ensures
            header_map_entries(*h) == self.request_header_list(),
    {
        &self.headers
    }

    /// The proxy through which the next request goes, drawn anew at every
    /// call; none where no proxies are configured, which means the direct
    /// path.
    pub fn pick_proxy(&self) -> (r: Option<&str>)
        ensures
            r is Some <==> (self.proxies() matches Some(entries) && entries.len() > 0),
            r matches Some(url) ==> exists|i: int|
                0 <= i < self.proxies()->0.len() && url@ == (#[trigger] self.proxies()->0[i]).url,
    {
        match &self.proxy_config {
            Some(config) => config.get_random_proxy(),
            None => None,
        }
    }

    /// The parser for the playlist, with the filter of this download.
    pub fn parser(&self) -> (r: Result<NestedParser, M3u8Error>)
        ensures
            r is Ok <==> all_compile(self.patterns()),
            r matches Ok(p) ==> p.patterns() == self.patterns(),
            r matches Err(e) ==> e.kind() == ErrorKind::ParseError,
    {
        let filters = copy_strings(&self.ad_filters);
        assert(texts(filters@) =~= texts(self.ad_filters@));
        NestedParser::new(filters)
    }

    /// The words that sum up the selected playlist; none where none is
    /// selected.
    pub fn display_playlist_info(&self, nested: &NestedM3u8) -> (r: Option<String>)
        ensures
            match r {
                Some(s) => nested@.selected() matches Some(p) && s@ == summary_text(
                    p.segments,
                    p.ads_count,
                    p.is_live,
                ),
                None => nested@.selected() is None,
            },
    {
        match nested.get_selected_variant() {
            Some(playlist) => {
                assert(nested@.media_playlists[nested.selected_variant_index->0 as int]
                    == playlist@);
                let mut text: Vec<char> = Vec::new();
                push_str(&mut text, "📊 ");
                push_decimal(&mut text, playlist.segments.len() as u64);
                push_str(&mut text, " 个片段, 🕒 ");
                push_str(&mut text, format_duration(playlist.segments.as_slice()).as_str());
                if playlist.ads_count > 0 {
                    push_str(&mut text, ", 🚫 广告 ");
                    push_decimal(&mut text, playlist.ads_count as u64);
                    push_str(&mut text, " 个");
                }
                if playlist.is_live {
                    push_str(&mut text, ", 📡 直播流");
                }
                assert(text@ =~= summary_text(
                    playlist@.segments,
                    playlist@.ads_count,
                    playlist@.is_live,
                ));
                Some(string_from_chars(text.as_slice()))
            },
            None => None,
        }
    }

    /// Plans the download of `total` segments, of which `cached` says by
    /// their place which are in the cache already: only the others are
    /// fetched, and never more at a time than this download allows.
    pub fn download_segments(&self, total: usize, cached: &Vec<bool>, ads: usize) -> (s: Scheduler)
        ensures
            s.queue() == needed_indices(cached@, total as int),
            s.started() == 0,
            s.in_flight() == 0,
            s.limit() == if self.workers() == 0 {
                1
            } else {
                self.workers() as nat
            },
            s.tally() == (DownloadOutcome {
                ads,
                needed: s.queue().len() as usize,
                downloaded: 0,
                failed: 0,
            }),
    {
        Scheduler::new(total, cached, ads, self.concurrent_limit)
    }
}

} // verus!
