use vstd::prelude::*;

verus! {

/// The kind of an HLS playlist.
#[derive(Debug, Clone, Copy, PartialEq, Eq, Structural)]
pub enum PlaylistType {
    /// Lists alternate-quality variant playlists.
    Master,
    /// Lists downloadable media segments.
    Media,
    /// Neither of the two could be recognised.
    Unknown,
}

impl PlaylistType {
    /// The lower-case name of the playlist kind.
    pub open spec fn name(self) -> Seq<char> {
        match self {
            PlaylistType::Master => "master"@,
            PlaylistType::Media => "media"@,
            PlaylistType::Unknown => "unknown"@,
        }
    }

    /// Renders the playlist kind as its lower-case name.
    pub fn to_string(&self) -> (s: String)
        ensures
            s@ == self.name(),
    {
        match self {
            PlaylistType::Master => "master".to_owned(),
            PlaylistType::Media => "media".to_owned(),
            PlaylistType::Unknown => "unknown".to_owned(),
        }
    }
}

/// One downloadable unit of media.
#[derive(Debug, Clone)]
pub struct M3u8Segment {
    /// The absolute URL of the segment.
    pub url: String,
    /// The play time of the segment, in microseconds.
    pub duration: u64,
    /// The position of the segment among all segments that its playlist lists,
    /// filtered ones included.
    pub sequence: usize,
    pub title: Option<String>,
    /// Offset and length of the part of the resource that makes up the segment.
    pub byte_range: Option<(usize, usize)>,
}

/// What a segment is, as plain values.
pub struct SegmentView {
    pub url: Seq<char>,
    pub duration: nat,
    pub sequence: nat,
    pub title: Option<Seq<char>>,
    pub byte_range: Option<(nat, nat)>,
}

/// The text an optional string holds.
pub open spec fn text_of(s: Option<String>) -> Option<Seq<char>> {
    match s {
        Some(t) => Some(t@),
        None => None,
    }
}

impl View for M3u8Segment {
    type V = SegmentView;

    open spec fn view(&self) -> SegmentView {
        SegmentView {
            url: self.url@,
            duration: self.duration as nat,
            sequence: self.sequence as nat,
            title: text_of(self.title),
            byte_range: match self.byte_range {
                Some((offset, length)) => Some((offset as nat, length as nat)),
                None => None,
            },
        }
    }
}

/// One quality tier that a master playlist offers.
#[derive(Debug, Clone)]
pub struct M3u8Variant {
    /// The absolute URL of the tier's media playlist.
    pub url: String,
    pub bandwidth: Option<u32>,
    /// Width and height.
    pub resolution: Option<(u32, u32)>,
    pub codecs: Option<String>,
    pub audio: Option<String>,
    pub video: Option<String>,
    pub subtitles: Option<String>,
}

/// What a variant is, as plain values.
pub struct VariantView {
    pub url: Seq<char>,
    pub bandwidth: Option<u32>,
    pub resolution: Option<(u32, u32)>,
    pub codecs: Option<Seq<char>>,
    pub audio: Option<Seq<char>>,
    pub video: Option<Seq<char>>,
    pub subtitles: Option<Seq<char>>,
}

impl View for M3u8Variant {
    type V = VariantView;

    open spec fn view(&self) -> VariantView {
        VariantView {
            url: self.url@,
            bandwidth: self.bandwidth,
            resolution: self.resolution,
            codecs: text_of(self.codecs),
            audio: text_of(self.audio),
            video: text_of(self.video),
            subtitles: text_of(self.subtitles),
        }
    }
}

/// The views of a sequence of segments.
pub open spec fn segment_views(s: Seq<M3u8Segment>) -> Seq<SegmentView> {
    s.map_values(|x: M3u8Segment| x@)
}

/// The views of a sequence of variants.
pub open spec fn variant_views(s: Seq<M3u8Variant>) -> Seq<VariantView> {
    s.map_values(|x: M3u8Variant| x@)
}

/// The play time of all the given segments together, in microseconds.
pub open spec fn sum_durations(s: Seq<SegmentView>) -> nat
    decreases s.len(),
{
    if s.len() == 0 {
        0
    } else {
        sum_durations(s.drop_last()) + s.last().duration
    }
}

/// The play time of all the given segments together, in microseconds, but at
/// most `u64::MAX`.
pub open spec fn capped_duration(s: Seq<SegmentView>) -> u64 {
    if sum_durations(s) <= u64::MAX {
        sum_durations(s) as u64
    } else {
        u64::MAX
    }
}

/// Adds up the play time of the segments, in microseconds, stopping at
/// `u64::MAX`.
pub fn total_micros(segments: &[M3u8Segment]) -> (total: u64)
    ensures
        total == capped_duration(segment_views(segments@)),
{
    let ghost all = segment_views(segments@);
    let mut total: u64 = 0;
    let mut i: usize = 0;
    assert(all.take(0) =~= Seq::<SegmentView>::empty());
    while i < segments.len()
        invariant
            i <= segments@.len(),
            all == segment_views(segments@),
            total == capped_duration(all.take(i as int)),
        decreases segments@.len() - i,
    {
        proof {
            let next = all.take(i + 1);
            assert(next.drop_last() =~= all.take(i as int));
            assert(next.last().duration == segments@[i as int].duration);
        }
        total = total.saturating_add(segments[i].duration);
        i += 1;
    }
    assert(all.take(i as int) =~= all);
    total
}

/// A parsed playlist.
#[derive(Debug, Clone)]
pub struct M3u8Playlist {
    /// The segments that are no advertisements, in playlist order.
    pub segments: Vec<M3u8Segment>,
    pub variants: Vec<M3u8Variant>,
    pub playlist_type: PlaylistType,
    /// The longest play time of a segment, in microseconds.
    pub target_duration: u64,
    pub version: u32,
    /// False once the playlist is known to be complete.
    pub is_live: bool,
    /// How many segments were filtered out as advertisements.
    pub ads_count: usize,
    pub media_sequence: usize,
    pub discontinuity_sequence: usize,
}

/// What a playlist is, as plain values.
pub struct PlaylistView {
    pub segments: Seq<SegmentView>,
    pub variants: Seq<VariantView>,
    pub playlist_type: PlaylistType,
    pub target_duration: nat,
    pub version: nat,
    pub is_live: bool,
    pub ads_count: nat,
    pub media_sequence: nat,
    pub discontinuity_sequence: nat,
}

impl PlaylistView {
    /// The playlist of the given kind that holds nothing yet.
    pub open spec fn empty(playlist_type: PlaylistType) -> PlaylistView {
        PlaylistView {
            segments: Seq::empty(),
            variants: Seq::empty(),
            playlist_type,
            target_duration: 0,
            version: 1,
            is_live: true,
            ads_count: 0,
            media_sequence: 0,
            discontinuity_sequence: 0,
        }
    }
}

impl View for M3u8Playlist {
    type V = PlaylistView;

    open spec fn view(&self) -> PlaylistView {
        PlaylistView {
            segments: segment_views(self.segments@),
            variants: variant_views(self.variants@),
            playlist_type: self.playlist_type,
            target_duration: self.target_duration as nat,
            version: self.version as nat,
            is_live: self.is_live,
            ads_count: self.ads_count as nat,
            media_sequence: self.media_sequence as nat,
            discontinuity_sequence: self.discontinuity_sequence as nat,
        }
    }
}

impl M3u8Playlist {
    /// A playlist of the given kind that holds nothing yet: version 1, live.
    pub fn new(playlist_type: PlaylistType) -> (p: Self)
        ensures
            p@ == PlaylistView::empty(playlist_type),
    {
        let p = Self {
            segments: Vec::new(),
            variants: Vec::new(),
            playlist_type,
            target_duration: 0,
            version: 1,
            is_live: true,
            ads_count: 0,
            media_sequence: 0,
            discontinuity_sequence: 0,
        };
        assert(p@.segments =~= Seq::empty());
        assert(p@.variants =~= Seq::empty());
        p
    }

    /// The play time of all segments together, in microseconds; `u64::MAX`
    /// where the sum exceeds it.
    pub fn total_duration(&self) -> (total: u64)
        ensures
            total == capped_duration(self@.segments),
    {
        total_micros(self.segments.as_slice())
    }

    /// How many segments the playlist holds.
    pub fn segment_count(&self) -> (n: usize)
        ensures
            n == self@.segments.len(),
    {
        self.segments.len()
    }

    /// Whether this is a master playlist that lists at least one variant.
    pub fn is_nested(&self) -> (b: bool)
        ensures
            b == (self@.variants.len() > 0 && self@.playlist_type == PlaylistType::Master),
    {
        self.variants.len() > 0 && self.playlist_type == PlaylistType::Master
    }
}

/// The views of a sequence of playlists.
pub open spec fn playlist_views(s: Seq<M3u8Playlist>) -> Seq<PlaylistView> {
    s.map_values(|x: M3u8Playlist| x@)
}

/// A playlist together with the media playlists it leads to.
#[derive(Debug, Clone)]
pub struct NestedM3u8 {
    /// The master playlist; an empty one where the source was a media
    /// playlist.
    pub master_playlist: M3u8Playlist,
    /// The media playlists, one for each variant of the master playlist in
    /// its order, or the single media playlist of the source.
    pub media_playlists: Vec<M3u8Playlist>,
    /// Which of the media playlists is to be downloaded.
    pub selected_variant_index: Option<usize>,
}

/// What a nested playlist is, as plain values.
pub struct NestedView {
    pub master_playlist: PlaylistView,
    pub media_playlists: Seq<PlaylistView>,
    pub selected_variant_index: Option<usize>,
}

impl View for NestedM3u8 {
    type V = NestedView;

    open spec fn view(&self) -> NestedView {
        NestedView {
            master_playlist: self.master_playlist@,
            media_playlists: playlist_views(self.media_playlists@),
            selected_variant_index: self.selected_variant_index,
        }
    }
}

impl NestedView {
    /// The media playlist that is selected, if one is and it exists.
    pub open spec fn selected(self) -> Option<PlaylistView> {
        match self.selected_variant_index {
            Some(i) => if i < self.media_playlists.len() {
                Some(self.media_playlists[i as int])
            } else {
                None
            },
            None => None,
        }
    }
}

impl NestedM3u8 {
    /// An empty master playlist, no media playlists, nothing selected.
    pub fn new() -> (n: Self)
        ensures
            n@.master_playlist == PlaylistView::empty(PlaylistType::Master),
            n@.media_playlists.len() == 0,
            n@.selected_variant_index is None,
    {
        Self {
            master_playlist: M3u8Playlist::new(PlaylistType::Master),
            media_playlists: Vec::new(),
            selected_variant_index: None,
        }
    }

    /// Selects the media playlist at `index` and returns it; leaves the
    /// selection as it is and returns `None` where there is no such playlist.
    pub fn select_variant(&mut self, index: usize) -> (r: Option<&M3u8Playlist>)
        ensures
            final(self).master_playlist == old(self).master_playlist,
            final(self).media_playlists == old(self).media_playlists,
            index < old(self)@.media_playlists.len() ==> final(self).selected_variant_index
                == Some(index) && r == Some(&old(self).media_playlists@[index as int]),
            index >= old(self)@.media_playlists.len() ==> final(self).selected_variant_index
                == old(self).selected_variant_index && r is None,
    {
        if index < self.media_playlists.len() {
            self.selected_variant_index = Some(index);
            Some(&self.media_playlists[index])
        } else {
            None
        }
    }

    /// The media playlist that is selected, if one is and it exists.
    pub fn get_selected_variant(&self) -> (r: Option<&M3u8Playlist>)
        ensures
            match self.selected_variant_index {
                Some(i) => if i < self.media_playlists@.len() {
                    r == Some(&self.media_playlists@[i as int])
                } else {
                    r is None
                },
                None => r is None,
            },
    {
        match self.selected_variant_index {
            Some(i) => if i < self.media_playlists.len() {
                Some(&self.media_playlists[i])
            } else {
                None
            },
            None => None,
        }
    }
}

impl Default for NestedM3u8 {
    fn default() -> (n: Self)
        ensures
            n@.master_playlist == PlaylistView::empty(PlaylistType::Master),
            n@.media_playlists.len() == 0,
            n@.selected_variant_index is None,
    {
        Self::new()
    }
}

} // verus!
