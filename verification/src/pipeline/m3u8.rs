use crate::error::{ErrorKind, M3u8Error};
use crate::pattern::{all_compile, matches_any};
use crate::pipeline::filter::Filter;
use crate::pipeline::segment::{segment_data, Segment, SegmentData};
use crate::proxy::ProxyEntry;
use crate::scheduler::{
    attempt_succeeded, first_state, is_success_status, lemma_failures_never_succeed,
    state_after_all, Attempt, SegmentState,
};
use crate::text::{
    has_prefix, lines, push_chars, push_str, rows, split_lines,
    starts_with, string_from_chars, to_chars, trim, trim_chars, trim_start_char,
    trim_start_matches,
};
use crate::types::text_of;
use crate::utils::common::{is_online, Funcs};
use crate::utils::config::{AppConfig, ConfigView};
use crate::utils::proxy::{pair_views, proxies_outcome, Proxies};
use crate::utils::tmp_dir::{cache_dir, TempDir};
use vstd::prelude::*;

verus! {

/// Whether a trimmed line of a playlist names a segment: it is not empty and
/// is no comment.
pub open spec fn is_entry(line: Seq<char>) -> bool {
    line.len() > 0 && !has_prefix(line, "#"@)
}

/// The URL of the segment that the trimmed line `line` names: the line itself
/// where it is an HTTP URL, else the line appended to the base with one slash
/// between them. Without a base a relative line is a parse error.
pub open spec fn entry_url(line: Seq<char>, base: Option<Seq<char>>) -> Result<
    Seq<char>,
    ErrorKind,
> {
    if is_online(line) {
        Ok(line)
    } else {
        match base {
            Some(b) => Ok(b + "/"@ + trim_start_matches(line, '/')),
            None => Err(ErrorKind::ParseError),
        }
    }
}

/// The segments that the first `n` of the trimmed lines `all` name, in order,
/// each marked as an advertisement where a pattern matches its URL; the
/// first failure ends the reading.
pub open spec fn listed_segments(
    patterns: Seq<Seq<char>>,
    base: Option<Seq<char>>,
    all: Seq<Seq<char>>,
    n: int,
) -> Result<Seq<SegmentData>, ErrorKind>
    decreases n,
{
    if n <= 0 {
        Ok(Seq::empty())
    } else {
        match listed_segments(patterns, base, all, n - 1) {
            Err(k) => Err(k),
            Ok(before) => if is_entry(all[n - 1]) {
                match entry_url(all[n - 1], base) {
                    Ok(url) => Ok(
                        before.push(
                            SegmentData {
                                url,
                                is_ad: matches_any(patterns, url),
                                data: Seq::empty(),
                                is_ok: false,
                                size: None,
                            },
                        ),
                    ),
                    Err(k) => Err(k),
                }
            } else {
                Ok(before)
            },
        }
    }
}

/// A failure to read the segments stays.
pub proof fn lemma_listing_failure_stays(
    patterns: Seq<Seq<char>>,
    base: Option<Seq<char>>,
    all: Seq<Seq<char>>,
    m: int,
    n: int,
)
    requires
        0 <= m <= n,
        listed_segments(patterns, base, all, m) is Err,
    ensures
        listed_segments(patterns, base, all, n) == listed_segments(patterns, base, all, m),
    decreases n - m,
{
    if m < n {
        lemma_listing_failure_stays(patterns, base, all, m, n - 1);
    }
}

/// How many of the first `n` segments are advertisements.
pub open spec fn ads_among(segments: Seq<SegmentData>, n: int) -> nat
    decreases n,
{
    if n <= 0 {
        0
    } else {
        ads_among(segments, n - 1) + if segments[n - 1].is_ad {
            1nat
        } else {
            0nat
        }
    }
}

/// How many of the first `n` segments are to be fetched: those that are no
/// advertisement and whose content is not at hand.
pub open spec fn needed_among(segments: Seq<SegmentData>, n: int) -> nat
    decreases n,
{
    if n <= 0 {
        0
    } else {
        needed_among(segments, n - 1) + if !segments[n - 1].is_ad && !segments[n - 1].is_ok {
            1nat
        } else {
            0nat
        }
    }
}

/// The places of those of the first `n` segments that are to be fetched, in
/// order.
pub open spec fn places_to_fetch(segments: Seq<SegmentData>, n: int) -> Seq<usize>
    decreases n,
{
    if n <= 0 {
        Seq::empty()
    } else if !segments[n - 1].is_ad && !segments[n - 1].is_ok {
        places_to_fetch(segments, n - 1).push((n - 1) as usize)
    } else {
        places_to_fetch(segments, n - 1)
    }
}

/// The places of those of the first `n` segments that go into the output, in
/// order: all but the advertisements.
pub open spec fn places_to_merge(segments: Seq<SegmentData>, n: int) -> Seq<usize>
    decreases n,
{
    if n <= 0 {
        Seq::empty()
    } else if !segments[n - 1].is_ad {
        places_to_merge(segments, n - 1).push((n - 1) as usize)
    } else {
        places_to_merge(segments, n - 1)
    }
}

/// A count as a `u32`, or `u32::MAX` where it is greater.
pub open spec fn capped(count: nat) -> u32 {
    if count <= u32::MAX {
        count as u32
    } else {
        u32::MAX
    }
}

/// Whether a text is taken as a playlist: trimmed, it begins with `#EXTM3U`.
/// A playlist that is still growing has no end marker and is taken as well.
pub open spec fn is_playlist_text(content: Seq<char>) -> bool {
    has_prefix(trim(content), "#EXTM3U"@)
}

/// The wait after the first failed attempt to fetch a segment, in
/// milliseconds.
pub const RETRY_WAIT_MS: u64 = 2000;

/// The endpoints and weights that a configuration lists.
pub open spec fn listed_proxies(config: ConfigView) -> Seq<ProxyEntry> {
    config.proxies.map_values(|p: (Seq<char>, u32)| ProxyEntry { url: p.0, weight: p.1 })
}

/// What one request for a segment brought, and whether it went into the
/// cache.
#[derive(Debug)]
pub struct Reply {
    /// The status and the body of the response, or the message of the
    /// failure.
    pub fetched: Result<(u16, Vec<u8>), String>,
    /// Whether the body was written to the cache.
    pub stored: bool,
}

/// The attempt that a reply amounts to.
pub open spec fn reply_attempt(reply: Reply) -> Attempt {
    Attempt {
        status: match reply.fetched {
            Ok((status, _)) => Some(status),
            Err(_) => None,
        },
        body_len: match reply.fetched {
            Ok((_, body)) => body@.len() as usize,
            Err(_) => 0,
        },
        stored: reply.stored,
    }
}

/// The attempts that a list of replies amounts to.
pub open spec fn reply_attempts(replies: Seq<Reply>) -> Seq<Attempt> {
    replies.map_values(|r: Reply| reply_attempt(r))
}

/// Whether reply `k` is the one that brings the segment: it is the first
/// that succeeded, and it came while attempts were still allowed.
pub open spec fn is_winning_reply(replies: Seq<Reply>, attempts: usize, k: int) -> bool {
    &&& 0 <= k < replies.len()
    &&& k < attempts
    &&& attempt_succeeded(reply_attempt(replies[k]))
    &&& forall|j: int| 0 <= j < k ==> !attempt_succeeded(reply_attempt(#[trigger] replies[j]))
}

/// The lines of the trimmed text, each trimmed.
pub open spec fn playlist_lines(content: Seq<char>) -> Seq<Seq<char>> {
    split_lines(trim(content)).map_values(|l: Seq<char>| trim(l))
}

/// What reading a playlist under a configuration gives: the proxies are
/// checked first, then the text, then the filter patterns, and the segments
/// are read last; the first of these to fail decides the error.
pub open spec fn playlist_outcome(content: Seq<char>, config: ConfigView) -> Result<
    Seq<SegmentData>,
    ErrorKind,
> {
    let proxy_list = listed_proxies(config);
    if config.proxies.len() > 0 && proxies_outcome(proxy_list) is Err {
        Err(proxies_outcome(proxy_list)->Err_0)
    } else if !is_playlist_text(content) {
        Err(ErrorKind::ParseError)
    } else if !all_compile(config.url_patterns) {
        Err(ErrorKind::ParseError)
    } else {
        listed_segments(
            config.url_patterns,
            config.base_url,
            playlist_lines(content),
            playlist_lines(content).len() as int,
        )
    }
}

/// Whether the replies `replies` fetch the segment at `place`, of `total`
/// segments, where `attempts` attempts are allowed.
pub open spec fn fetches(place: usize, replies: Seq<Reply>, total: nat, attempts: usize) -> bool {
    place < total && state_after_all(first_state(attempts), reply_attempts(replies), attempts)
        == SegmentState::Succeeded
}

/// How many of the first `n` results fetch their segment.
pub open spec fn fetched_among(
    results: Seq<(usize, Vec<Reply>)>,
    total: nat,
    attempts: usize,
    n: int,
) -> nat
    decreases n,
{
    if n <= 0 {
        0
    } else {
        fetched_among(results, total, attempts, n - 1) + if fetches(
            results[n - 1].0,
            results[n - 1].1@,
            total,
            attempts,
        ) {
            1nat
        } else {
            0nat
        }
    }
}

/// No more results fetch their segment than there are results.
pub proof fn lemma_fetched_among_bound(
    results: Seq<(usize, Vec<Reply>)>,
    total: nat,
    attempts: usize,
    n: int,
)
    requires
        0 <= n,
    ensures
        fetched_among(results, total, attempts, n) <= n,
    decreases n,
{
    if n > 0 {
        lemma_fetched_among_bound(results, total, attempts, n - 1);
    }
}

/// A segment whose every request fails is never fetched: where no reply has
/// a status of success, the work on the segment does not end in success,
/// however many replies there are and however many attempts are allowed. So
/// `download_one` counts it as an error, not as downloaded.
pub proof fn lemma_failed_replies_fail(replies: Seq<Reply>, attempts: usize)
    requires
        forall|k: int|
            0 <= k < replies.len() ==> !((#[trigger] replies[k]).fetched matches Ok((status, _))
                && is_success_status(status)),
    ensures
        state_after_all(first_state(attempts), reply_attempts(replies), attempts)
            != SegmentState::Succeeded,
        replies.len() >= attempts ==> state_after_all(
            first_state(attempts),
            reply_attempts(replies),
            attempts,
        ) == SegmentState::Failed,
{
    let tries = reply_attempts(replies);
    assert forall|k: int| 0 <= k < tries.len() implies !attempt_succeeded(#[trigger] tries[k]) by {
        assert(tries[k] == reply_attempt(replies[k]));
    }
    lemma_failures_never_succeed(tries, attempts);
}

/// A playlist with its segments, and the account of their download.
#[derive(Debug)]
pub struct M3U8 {
    pub segments: Vec<Segment>,
    /// How many segments are advertisements.
    pub ads: u32,
    /// How many segments could not be fetched.
    pub errors: u32,
    /// How many segments were not at hand when the playlist was read or the
    /// cache was consulted.
    pub need_downloads: u32,
    /// How many segments were fetched.
    pub downloaded: u32,
    pub config: AppConfig,
    pub filter: Filter,
    pub tmp_dir: TempDir,
    /// The proxies among which requests are spread; none where they go the
    /// direct path.
    pub proxies: Option<Proxies>,
}

impl M3U8 {
    /// The path of the directory that caches the segments.
    pub open spec fn cache_path(&self) -> Seq<char> {
        self.tmp_dir@
    }

    /// How often a failed fetch is tried again.
    pub open spec fn retry(&self) -> u32 {
        self.config.system.retry
    }

    /// Whether advertisements are also to be told by picture size.
    pub open spec fn by_size(&self) -> bool {
        self.config.filters.resolution
    }

    /// The proxies among which requests are spread, if any.
    pub open spec fn proxy_entries(&self) -> Option<Seq<ProxyEntry>> {
        match self.proxies {
            Some(p) => Some(p.entries()),
            None => None,
        }
    }

    /// Reads the segments that the lines of `content` name.
    fn parse_segments(filter: &Filter, base: &Option<String>, content: &[char]) -> (r: Result<
        Vec<Segment>,
        M3u8Error,
    >)
        ensures
            match r {
                Ok(s) => listed_segments(
                    filter.patterns(),
                    text_of(*base),
                    split_lines(content@).map_values(|l: Seq<char>| trim(l)),
                    split_lines(content@).len() as int,
                ) == Ok::<Seq<SegmentData>, ErrorKind>(segment_data(s@)),
                Err(e) => listed_segments(
                    filter.patterns(),
                    text_of(*base),
                    split_lines(content@).map_values(|l: Seq<char>| trim(l)),
                    split_lines(content@).len() as int,
                ) == Err::<Seq<SegmentData>, ErrorKind>(e.kind()),
            },
    {
        let all = lines(content);
        let n = all.len();
        let ghost tl = split_lines(content@).map_values(|l: Seq<char>| trim(l));
        let ghost patterns = filter.patterns();
        let ghost b = text_of(*base);
        let mut segments: Vec<Segment> = Vec::new();
        let mut i: usize = 0;
        assert(segment_data(segments@) =~= Seq::empty());
        while i < n
            invariant
                i <= n == all@.len(),
                rows(all@) == split_lines(content@),
                tl == split_lines(content@).map_values(|l: Seq<char>| trim(l)),
                patterns == filter.patterns(),
                b == text_of(*base),
                listed_segments(patterns, b, tl, i as int) == Ok::<Seq<SegmentData>, ErrorKind>(
                    segment_data(segments@),
                ),
            decreases n - i,
        {
            let trimmed = trim_chars(all[i].as_slice());
            let line = trimmed.as_slice();
            assert(line@ == tl[i as int]);
            if line.len() > 0 && !starts_with(line, "#") {
                let raw = string_from_chars(line);
                let url = if Funcs::is_online_resource(raw.as_str()) {
                    raw
                } else {
                    match base {
                        Some(base_url) => {
                            let mut text: Vec<char> = Vec::new();
                            push_str(&mut text, base_url.as_str());
                            push_str(&mut text, "/");
                            let rest = trim_start_char(line, '/');
                            push_chars(&mut text, rest.as_slice());
                            assert(text@ =~= base_url@ + "/"@ + trim_start_matches(line@, '/'));
                            string_from_chars(text.as_slice())
                        },
                        None => {
                            proof {
                                lemma_listing_failure_stays(patterns, b, tl, i + 1, n as int);
                            }
                            return Err(
                                M3u8Error::ParseError("TS片段不是绝对URL，且未配置 base_url".to_owned()),
                            );
                        },
                    }
                };
                let is_ad = filter.is_ad_by_url(url.as_str());
                let mut segment = Segment::new(url);
                segment.is_ad = is_ad;
                proof {
                    assert(segment_data(segments@.push(segment)) =~= segment_data(segments@).push(
                        segment@,
                    ));
                }
                segments.push(segment);
            }
            i += 1;
        }
        Ok(segments)
    }

    /// Counts the advertisements and the segments to fetch.
    fn count(segments: &Vec<Segment>) -> (r: (u32, u32))
        ensures
            r.0 == capped(ads_among(segment_data(segments@), segments@.len() as int)),
            r.1 == capped(needed_among(segment_data(segments@), segments@.len() as int)),
    {
        let ghost all = segment_data(segments@);
        let mut ads: u32 = 0;
        let mut needed: u32 = 0;
        let mut i: usize = 0;
        while i < segments.len()
            invariant
                i <= segments@.len(),
                all == segment_data(segments@),
                ads == capped(ads_among(all, i as int)),
                needed == capped(needed_among(all, i as int)),
            decreases segments@.len() - i,
        {
            assert(all[i as int] == segments@[i as int]@);
            if segments[i].is_ad {
                ads = ads.saturating_add(1);
            } else if !segments[i].is_ok {
                needed = needed.saturating_add(1);
            }
            i += 1;
        }
        (ads, needed)
    }

    /// Reads the playlist `content` under `config`. The cache of its
    /// segments is placed below the directory `temp_root`.
    pub fn parse(content: &str, temp_root: &str, config: AppConfig) -> (r: Result<Self, M3u8Error>)
        ensures
            match r {
                Ok(m) => {
                    &&& playlist_outcome(content@, config@) == Ok::<Seq<SegmentData>, ErrorKind>(
                        segment_data(m.segments@),
                    )
                    &&& m.ads == capped(ads_among(segment_data(m.segments@), m.segments@.len() as int))
                    &&& m.need_downloads == capped(
                        needed_among(segment_data(m.segments@), m.segments@.len() as int),
                    )
                    &&& m.errors == 0
                    &&& m.downloaded == 0
                    &&& m.cache_path() == cache_dir(temp_root@, trim(content@))
                    &&& m.retry() == config@.retry
                    &&& m.by_size() == config@.resolution
                    &&& m.proxy_entries() == if config@.proxies.len() > 0 {
                        Some(proxies_outcome(listed_proxies(config@))->Ok_0)
                    } else {
                        None
                    }
                    &&& m.filter.patterns() == config@.url_patterns
                    &&& m.filter.by_size() == config@.resolution
                },
                Err(e) => playlist_outcome(content@, config@) == Err::<
                    Seq<SegmentData>,
                    ErrorKind,
                >(e.kind()),
            },
    {
        let ghost proxy_list = listed_proxies(config@);
        assert(proxy_list =~= pair_views(config.system.proxies@));
        let proxies = if config.system.proxies.len() > 0 {
            Some(Proxies::parse(&config.system.proxies)?)
        } else {
            None
        };
        let chars = to_chars(content);
        let text = trim_chars(chars.as_slice());
        if !starts_with(text.as_slice(), "#EXTM3U") {
            return Err(M3u8Error::ParseError("Not a valid M3U8 file".to_owned()));
        }
        let filter = Filter::parse(&config.filters)?;
        let segments = Self::parse_segments(&filter, &config.system.base_url, text.as_slice())?;
        let (ads, need_downloads) = Self::count(&segments);
        let mut tmp_dir = TempDir::new();
        let trimmed = string_from_chars(text.as_slice());
        tmp_dir.init(temp_root, trimmed.as_str());
        Ok(
            Self {
                segments,
                ads,
                errors: 0,
                need_downloads,
                downloaded: 0,
                config,
                filter,
                tmp_dir,
                proxies,
            },
        )
    }

    /// The path of the directory that caches the segments.
    pub fn cache_dir(&self) -> (p: &str)
        ensures
            p@ == self.cache_path(),
    {
        self.tmp_dir.path()
    }

    /// The path of the file that caches the segment at `index`.
    pub fn cache_file(&self, index: usize) -> (p: String)
        ensures
            p@ == crate::utils::tmp_dir::cache_file(self.cache_path(), index as nat),
    {
        self.tmp_dir.get_file_path(index)
    }

    /// The proxy through which the next request goes, drawn anew at every
    /// call; none where no proxies are configured.
    pub fn pick_proxy(&self) -> (r: Option<&str>)
        ensures
            r is Some <==> self.proxy_entries() is Some,
            r matches Some(url) ==> exists|i: int|
                0 <= i < self.proxy_entries()->0.len() && url@ == (
                #[trigger] self.proxy_entries()->0[i]).url && self.proxy_entries()->0[i].weight > 0,
    {
        match &self.proxies {
            Some(p) => {
                let r = p.select();
                proof {
                    let i = choose|i: int|
                        0 <= i < p.entries().len() && r->0@ == (#[trigger] p.entries()[i]).url
                            && p.entries()[i].weight > 0;
                    assert(r->0@ == self.proxy_entries()->0[i].url && self.proxy_entries()->0[i].weight
                        > 0);
                }
                r
            },
            None => None,
        }
    }

    /// How often the fetch of one segment is tried at most.
    pub fn attempts_allowed(&self) -> (n: usize)
        ensures
            n == self.retry(),
    {
        self.config.system.retry as usize
    }

    /// Takes in what the cache holds for the segment at `index`, and tells
    /// whether it was taken as the segment's content: that is so where the
    /// segment exists, is no advertisement, has no content yet, and the cache
    /// holds more than nothing for it. It is then no longer to be fetched.
    pub fn load_cached(&mut self, index: usize, data: Vec<u8>) -> (hit: bool)
        ensures
            hit == (index < old(self).segments@.len() && !old(self).segments@[index as int].is_ad
                && !old(self).segments@[index as int].is_ok && data@.len() > 0),
            hit ==> segment_data(final(self).segments@) == segment_data(old(self).segments@).update(
                index as int,
                SegmentData { data: data@, is_ok: true, ..old(self).segments@[index as int]@ },
            ),
            !hit ==> segment_data(final(self).segments@) == segment_data(old(self).segments@),
            final(self).need_downloads == capped(
                needed_among(
                    segment_data(final(self).segments@),
                    final(self).segments@.len() as int,
                ),
            ),
            final(self).ads == old(self).ads,
            final(self).errors == old(self).errors,
            final(self).downloaded == old(self).downloaded,
            final(self).cache_path() == old(self).cache_path(),
            final(self).retry() == old(self).retry(),
    {
        let hit = index < self.segments.len() && !self.segments[index].is_ad
            && !self.segments[index].is_ok && TempDir::is_hit(data.as_slice());
        if hit {
            let ghost before = segment_data(self.segments@);
            let mut segment = Segment::new(String::new());
            core::mem::swap(&mut segment, &mut self.segments[index]);
            segment.data = data;
            segment.is_ok = true;
            self.segments[index] = segment;
            assert(segment_data(self.segments@) =~= before.update(
                index as int,
                SegmentData { data: data@, is_ok: true, ..before[index as int] },
            ));
        }
        let (_, needed) = Self::count(&self.segments);
        self.need_downloads = needed;
        hit
    }

    /// The places of the segments that are to be fetched, in order.
    pub fn segments_to_download(&self) -> (places: Vec<usize>)
        ensures
            places@ == places_to_fetch(segment_data(self.segments@), self.segments@.len() as int),
    {
        let ghost all = segment_data(self.segments@);
        let mut places: Vec<usize> = Vec::new();
        let mut i: usize = 0;
        while i < self.segments.len()
            invariant
                i <= self.segments@.len(),
                all == segment_data(self.segments@),
                places@ == places_to_fetch(all, i as int),
            decreases self.segments@.len() - i,
        {
            assert(all[i as int] == self.segments@[i as int]@);
            if !self.segments[i].is_ad && !self.segments[i].is_ok {
                places.push(i);
            }
            i += 1;
        }
        places
    }

    /// Takes in the replies to the requests that were made for the segment
    /// at `index`, in their order. The segment is fetched where one of the
    /// replies succeeded while attempts were still allowed: the body of the
    /// first such reply becomes the segment's content, and the segment counts
    /// as downloaded. Otherwise the download has failed: it counts as an
    /// error and leaves the segment as it was. A failure of one segment does
    /// not touch the others. The counters stop at `u32::MAX`.
    pub fn download_one(&mut self, index: usize, replies: Vec<Reply>) -> (r: Result<(), M3u8Error>)
        ensures
            r is Ok <==> (index < old(self).segments@.len() && state_after_all(
                first_state(old(self).retry() as usize),
                reply_attempts(replies@),
                old(self).retry() as usize,
            ) == SegmentState::Succeeded),
            r is Ok ==> exists|k: int| #[trigger]
                is_winning_reply(replies@, old(self).retry() as usize, k) && segment_data(
                    final(self).segments@,
                ) == segment_data(old(self).segments@).update(
                    index as int,
                    SegmentData {
                        data: replies@[k].fetched->Ok_0.1@,
                        is_ok: true,
                        ..old(self).segments@[index as int]@
                    },
                ),
            r is Ok ==> final(self).downloaded == capped((old(self).downloaded + 1) as nat)
                && final(self).errors == old(self).errors,
            r is Err ==> segment_data(final(self).segments@) == segment_data(old(self).segments@)
                && final(self).errors == capped((old(self).errors + 1) as nat)
                && final(self).downloaded == old(self).downloaded,
            r matches Err(e) ==> e.kind() == ErrorKind::DownloadFailed,
            final(self).segments@.len() == old(self).segments@.len(),
            final(self).ads == old(self).ads,
            final(self).need_downloads == old(self).need_downloads,
            final(self).cache_path() == old(self).cache_path(),
            final(self).retry() == old(self).retry(),
            final(self).proxy_entries() == old(self).proxy_entries(),
    {
        let attempts = self.attempts_allowed();
        let ghost all = replies@;
        let ghost tries = reply_attempts(replies@);
        let mut state = SegmentState::start(attempts, RETRY_WAIT_MS).0;
        let mut winner: Option<usize> = None;
        let mut i: usize = 0;
        assert(tries.take(0) =~= Seq::<Attempt>::empty());
        while i < replies.len()
            invariant
                i <= replies@.len(),
                all == replies@,
                tries == reply_attempts(replies@),
                state == state_after_all(first_state(attempts), tries.take(i as int), attempts),
                state != SegmentState::Pending,
                state matches SegmentState::Attempting(n) ==> n == i + 1 && n <= attempts,
                winner is Some <==> state == SegmentState::Succeeded,
                winner matches Some(k) ==> k < i && is_winning_reply(all, attempts, k as int),
                state is Attempting ==> forall|j: int|
                    0 <= j < i ==> !attempt_succeeded(reply_attempt(#[trigger] all[j])),
            decreases replies@.len() - i,
        {
            let reply = &replies[i];
            let attempt = match &reply.fetched {
                Ok((status, body)) => Attempt {
                    status: Some(*status),
                    body_len: body.len(),
                    stored: reply.stored,
                },
                Err(_) => Attempt { status: None, body_len: 0, stored: reply.stored },
            };
            proof {
                assert(attempt == reply_attempt(all[i as int]));
                assert(tries[i as int] == reply_attempt(all[i as int]));
                let next = tries.take(i + 1);
                assert(next.drop_last() =~= tries.take(i as int));
                assert(next.last() == attempt);
            }
            let before = state;
            state = before.advance(&attempt, attempts, RETRY_WAIT_MS).0;
            if winner.is_none() && state == SegmentState::Succeeded {
                winner = Some(i);
            }
            i += 1;
        }
        assert(tries.take(i as int) =~= tries);
        let found = match winner {
            Some(k) => index < self.segments.len(),
            None => false,
        };
        if !found {
            self.errors = self.errors.saturating_add(1);
            return Err(M3u8Error::DownloadFailed("下载片段失败".to_owned()));
        }
        let k = winner.unwrap();
        let mut replies = replies;
        let reply = replies.swap_remove(k);
        assert(reply == all[k as int]);
        let ghost before = segment_data(self.segments@);
        let mut segment = Segment::new(String::new());
        core::mem::swap(&mut segment, &mut self.segments[index]);
        let r = segment.download(reply.fetched);
        self.segments[index] = segment;
        assert(r is Ok);
        assert(segment_data(self.segments@).len() == self.segments@.len());
        assert(segment_data(self.segments@) =~= before.update(
            index as int,
            SegmentData { data: all[k as int].fetched->Ok_0.1@, is_ok: true, ..before[index as int] },
        ));
        self.downloaded = self.downloaded.saturating_add(1);
        Ok(())
    }

    /// Takes in the replies for every segment that was requested: each
    /// result names a segment by its place and gives the replies to its
    /// requests. Every result is accounted for, whatever became of the
    /// others: it counts as downloaded where its replies fetch the segment,
    /// and as an error otherwise. The results are taken from the last to the
    /// first. The counters stop at `u32::MAX`.
    pub fn download(&mut self, results: Vec<(usize, Vec<Reply>)>)
        ensures
            final(self).downloaded == capped(
                (old(self).downloaded + fetched_among(
                    results@,
                    old(self).segments@.len(),
                    old(self).retry() as usize,
                    results@.len() as int,
                )) as nat,
            ),
            final(self).errors == capped(
                (old(self).errors + results@.len() - fetched_among(
                    results@,
                    old(self).segments@.len(),
                    old(self).retry() as usize,
                    results@.len() as int,
                )) as nat,
            ),
            final(self).segments@.len() == old(self).segments@.len(),
            final(self).ads == old(self).ads,
            final(self).need_downloads == old(self).need_downloads,
            final(self).cache_path() == old(self).cache_path(),
            final(self).retry() == old(self).retry(),
            final(self).proxy_entries() == old(self).proxy_entries(),
    {
        let ghost all = results@;
        let ghost total: nat = self.segments@.len();
        let ghost attempts = self.retry() as usize;
        let ghost start_ok = self.downloaded;
        let ghost start_err = self.errors;
        let ghost wanted = fetched_among(all, total, attempts, all.len() as int);
        let mut results = results;
        while results.len() > 0
            invariant
                results@.len() <= all.len(),
                results@ == all.take(results@.len() as int),
                total == self.segments@.len(),
                attempts == self.retry() as usize,
                wanted == fetched_among(all, total, attempts, all.len() as int),
                fetched_among(all, total, attempts, results@.len() as int) <= wanted,
                self.downloaded == capped(
                    (start_ok + wanted - fetched_among(
                        all,
                        total,
                        attempts,
                        results@.len() as int,
                    )) as nat,
                ),
                self.errors == capped(
                    (start_err + (all.len() - results@.len()) - (wanted - fetched_among(
                        all,
                        total,
                        attempts,
                        results@.len() as int,
                    ))) as nat,
                ),
                wanted - fetched_among(all, total, attempts, results@.len() as int) <= all.len()
                    - results@.len(),
                self.ads == old(self).ads,
                self.need_downloads == old(self).need_downloads,
                self.cache_path() == old(self).cache_path(),
                self.proxy_entries() == old(self).proxy_entries(),
            decreases results@.len(),
        {
            let ghost n = results@.len() as int;
            let (place, replies) = results.pop().unwrap();
            proof {
                assert(all[n - 1] == (place, replies));
                assert(results@ =~= all.take(n - 1));
            }
            let _ = self.download_one(place, replies);
        }
        proof {
            lemma_fetched_among_bound(all, total, attempts, all.len() as int);
        }
    }

    /// Tells advertisements by picture size, where the configuration asks
    /// for it. That is not supported: asking for it is an error, and nothing
    /// changes.
    pub fn filter_ads_by_size(&mut self) -> (r: Result<(), M3u8Error>)
        ensures
            *final(self) == *old(self),
            r is Ok <==> !old(self).by_size(),
            r matches Err(e) ==> e.kind() == ErrorKind::Other,
    {
        if !self.config.filters.resolution {
            return Ok(());
        }
        Err(M3u8Error::Other("当前不支持根据视频分辨率过滤广告".to_owned()))
    }

    /// The places of the segments that make up the output, in the order in
    /// which they are written: every segment but the advertisements.
    pub fn merge_order(&self) -> (places: Vec<usize>)
        ensures
            places@ == places_to_merge(segment_data(self.segments@), self.segments@.len() as int),
    {
        let ghost all = segment_data(self.segments@);
        let mut places: Vec<usize> = Vec::new();
        let mut i: usize = 0;
        while i < self.segments.len()
            invariant
                i <= self.segments@.len(),
                all == segment_data(self.segments@),
                places@ == places_to_merge(all, i as int),
            decreases self.segments@.len() - i,
        {
            assert(all[i as int] == self.segments@[i as int]@);
            if !self.segments[i].is_ad {
                places.push(i);
            }
            i += 1;
        }
        places
    }
}

} // verus!
