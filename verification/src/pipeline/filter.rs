use crate::pipeline::segment::{segment_data, Segment, SegmentData};
use crate::error::{ErrorKind, M3u8Error};
use crate::pattern::{all_compile, any_match, check_patterns, matches_any, texts};
use crate::text::copy_strings;
use crate::utils::config::AdFilterConfig;
use vstd::prelude::*;

verus! {

/// How many of the first `n` segments have the picture size `size`.
pub open spec fn size_count(segments: Seq<SegmentData>, size: Option<(u32, u32)>, n: int) -> nat
    decreases n,
{
    if n <= 0 {
        0
    } else {
        size_count(segments, size, n - 1) + if segments[n - 1].size == size {
            1nat
        } else {
            0nat
        }
    }
}

/// How often the picture size of segment `i` occurs among all segments.
pub open spec fn frequency(segments: Seq<SegmentData>, i: int) -> nat {
    size_count(segments, segments[i].size, segments.len() as int)
}

/// Whether segment `k` is the first whose picture size is the most frequent
/// one.
pub open spec fn is_first_most_frequent(segments: Seq<SegmentData>, k: int) -> bool {
    &&& 0 <= k < segments.len()
    &&& forall|j: int|
        0 <= j < segments.len() ==> #[trigger] frequency(segments, j) <= frequency(segments, k)
    &&& forall|j: int| 0 <= j < k ==> #[trigger] frequency(segments, j) < frequency(segments, k)
}

/// The segments after those with a picture size other than `keep` were
/// marked as advertisements.
pub open spec fn marked_by_size(segments: Seq<SegmentData>, keep: Option<(u32, u32)>) -> Seq<
    SegmentData,
> {
    segments.map_values(|s: SegmentData| SegmentData { is_ad: s.is_ad || s.size != keep, ..s })
}

/// Tells advertisements from content.
#[derive(Debug, Clone)]
pub struct Filter {
    url_patterns: Vec<String>,
    resolution: bool,
}

impl Filter {
    /// The regular expressions that mark a URL as an advertisement.
    pub closed spec fn patterns(&self) -> Seq<Seq<char>> {
        texts(self.url_patterns@)
    }

    /// Whether segments are also told apart by their picture size.
    pub closed spec fn by_size(&self) -> bool {
        self.resolution
    }

    /// Builds the filter. A pattern that is no regular expression is a parse
    /// error.
    pub fn parse(config: &AdFilterConfig) -> (r: Result<Self, M3u8Error>)
        ensures
            r is Ok <==> all_compile(texts(config.url_patterns@)),
            r matches Ok(f) ==> f.patterns() == texts(config.url_patterns@) && f.by_size()
                == config.resolution,
            r matches Err(e) ==> e.kind() == ErrorKind::ParseError,
    {
        if !check_patterns(&config.url_patterns) {
            return Err(M3u8Error::ParseError("广告过滤规则不是有效的正则表达式".to_owned()));
        }
        let url_patterns = copy_strings(&config.url_patterns);
        assert(texts(url_patterns@) =~= texts(config.url_patterns@));
        Ok(Self { url_patterns, resolution: config.resolution })
    }

    /// Tells whether `url` is an advertisement: one of the patterns matches
    /// somewhere in it. Without patterns nothing is.
    pub fn is_ad_by_url(&self, url: &str) -> (b: bool)
        ensures
            b == matches_any(self.patterns(), url@),
    {
        any_match(&self.url_patterns, url)
    }

    /// Counts the segments that have the picture size of segment `i`.
    fn count_like(segments: &Vec<Segment>, i: usize) -> (c: usize)
        requires
            i < segments@.len(),
        ensures
            c == frequency(segment_data(segments@), i as int),
    {
        let ghost all = segment_data(segments@);
        let n = segments.len();
        let mut c: usize = 0;
        let mut j: usize = 0;
        while j < n
            invariant
                j <= n == segments@.len(),
                i < n,
                all == segment_data(segments@),
                c == size_count(all, all[i as int].size, j as int),
                c <= j,
            decreases n - j,
        {
            assert(all[j as int].size == segments@[j as int].size);
            assert(all[i as int].size == segments@[i as int].size);
            if same_size(segments[j].size, segments[i].size) {
                c += 1;
            }
            j += 1;
        }
        c
    }

    /// Marks as advertisements the segments whose picture size is not the
    /// most frequent one; among sizes that are equally frequent the one that
    /// comes first is kept. Nothing changes where the filter does not go by
    /// size, or there are no segments.
    pub fn update_is_ad_by_size(&self, segments: &mut Vec<Segment>)
        ensures
            !self.by_size() || old(segments)@.len() == 0 ==> segment_data(final(segments)@)
                == segment_data(old(segments)@),
            self.by_size() && old(segments)@.len() > 0 ==> exists|k: int| #[trigger]
                is_first_most_frequent(segment_data(old(segments)@), k) && segment_data(
                    final(segments)@,
                ) == marked_by_size(
                    segment_data(old(segments)@),
                    segment_data(old(segments)@)[k].size,
                ),
    {
        if !self.resolution || segments.len() == 0 {
            return ;
        }
        let ghost all = segment_data(segments@);
        let n = segments.len();
        let mut best: usize = 0;
        let mut best_count: usize = Self::count_like(segments, 0);
        let mut i: usize = 1;
        while i < n
            invariant
                1 <= i <= n == segments@.len(),
                all == segment_data(segments@),
                best < i,
                best_count == frequency(all, best as int),
                forall|j: int| 0 <= j < i ==> #[trigger] frequency(all, j) <= best_count,
                forall|j: int| 0 <= j < best ==> #[trigger] frequency(all, j) < best_count,
            decreases n - i,
        {
            let c = Self::count_like(segments, i);
            if c > best_count {
                best = i;
                best_count = c;
            }
            i += 1;
        }
        assert(is_first_most_frequent(all, best as int));
        let keep = segments[best].size;
        assert(keep == all[best as int].size);
        let mut k: usize = 0;
        while k < n
            invariant
                k <= n == segments@.len(),
                all.len() == n,
                forall|j: int|
                    0 <= j < k ==> (#[trigger] segment_data(segments@)[j]) == marked_by_size(
                        all,
                        keep,
                    )[j],
                forall|j: int| k <= j < n ==> (#[trigger] segment_data(segments@)[j]) == all[j],
            decreases n - k,
        {
            let ghost before = segment_data(segments@);
            assert(before[k as int] == all[k as int]);
            if !same_size(segments[k].size, keep) {
                let mut segment = Segment::new(String::new());
                core::mem::swap(&mut segment, &mut segments[k]);
                segment.is_ad = true;
                segments[k] = segment;
            }
            assert forall|j: int| 0 <= j < k + 1 implies (#[trigger] segment_data(segments@)[j])
                == marked_by_size(all, keep)[j] by {
                if j < k {
                    assert(segment_data(segments@)[j] == before[j]);
                }
            }
            assert forall|j: int| k + 1 <= j < n implies (#[trigger] segment_data(segments@)[j])
                == all[j] by {
                assert(segment_data(segments@)[j] == before[j]);
            }
            k += 1;
        }
        assert(segment_data(segments@) =~= marked_by_size(all, keep));
    }
}

/// Whether two picture sizes are the same.
pub fn same_size(a: Option<(u32, u32)>, b: Option<(u32, u32)>) -> (eq: bool)
    ensures
        eq == (a == b),
{
    match (a, b) {
        (Some((h1, w1)), Some((h2, w2))) => h1 == h2 && w1 == w2,
        (None, None) => true,
        _ => false,
    }
}

} // verus!
