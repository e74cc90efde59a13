use crate::error::{ErrorKind, M3u8Error};
use crate::link::{url_parses, BaseUrl};
use crate::number::{decimal_digits, push_decimal};
use crate::parser::content_parser::{content_type, ContentParser};
use crate::parser::master_parser::{is_best_quality, master_outcome, MasterParser};
use crate::parser::media_parser::{media_outcome, MediaParser};
use crate::pattern::{all_compile, texts};
use crate::scheduler::is_success_status;
use crate::text::{copy_strings, has_prefix, push_str, string_from_chars};
use crate::types::{
    playlist_views, M3u8Playlist, M3u8Segment, NestedM3u8, NestedView, PlaylistType,
    PlaylistView, VariantView,
};
use vstd::prelude::*;

verus! {

/// The base that a caller's text gives: the text where it is an absolute URL,
/// none otherwise.
pub open spec fn usable_base(base: Option<Seq<char>>) -> Option<Seq<char>> {
    match base {
        Some(b) => if url_parses(b) {
            Some(b)
        } else {
            None
        },
        None => None,
    }
}

/// The text of an optional string slice.
pub open spec fn slice_text(s: Option<&str>) -> Option<Seq<char>> {
    match s {
        Some(t) => Some(t@),
        None => None,
    }
}

/// What the first reading of a playlist source gives. A media playlist is
/// complete at once: it is the one media playlist, and selected. A master
/// playlist comes without media playlists and with nothing selected: those
/// of its variants are still to be fetched. Anything else is a parse error.
pub open spec fn nested_outcome(
    patterns: Seq<Seq<char>>,
    base: Option<Seq<char>>,
    content: Seq<char>,
) -> Result<NestedView, ErrorKind> {
    match content_type(content) {
        PlaylistType::Master => match master_outcome(patterns, usable_base(base), content) {
            Ok(master) => Ok(
                NestedView {
                    master_playlist: master,
                    media_playlists: Seq::empty(),
                    selected_variant_index: None,
                },
            ),
            Err(k) => Err(k),
        },
        PlaylistType::Media => match media_outcome(patterns, usable_base(base), content) {
            Ok(media) => Ok(
                NestedView {
                    master_playlist: PlaylistView::empty(PlaylistType::Master),
                    media_playlists: seq![media],
                    selected_variant_index: Some(0usize),
                },
            ),
            Err(k) => Err(k),
        },
        PlaylistType::Unknown => Err(ErrorKind::ParseError),
    }
}

/// A text that does not begin with `#EXTM3U` is no playlist: reading it is a
/// parse error and gives no part of a playlist.
pub proof fn lemma_playlist_needs_marker(
    patterns: Seq<Seq<char>>,
    base: Option<Seq<char>>,
    content: Seq<char>,
)
    requires
        !has_prefix(content, "#EXTM3U"@),
    ensures
        nested_outcome(patterns, base, content) == Err::<NestedView, ErrorKind>(
            ErrorKind::ParseError,
        ),
{
}

/// Which variant's media playlist is to be fetched next: the first that has
/// none yet.
pub open spec fn pending_variant(nested: NestedView) -> Option<int> {
    if nested.media_playlists.len() < nested.master_playlist.variants.len() {
        Some(nested.media_playlists.len() as int)
    } else {
        None
    }
}

/// What a variant is called in a list of qualities.
pub open spec fn variant_info(v: VariantView) -> Seq<char> {
    match v.bandwidth {
        Some(bandwidth) => match v.resolution {
            Some((width, height)) => decimal_digits(width as nat) + "x"@ + decimal_digits(
                height as nat,
            ) + " @ "@ + decimal_digits((bandwidth / 1000) as nat) + " kbps"@,
            None => decimal_digits((bandwidth / 1000) as nat) + " kbps"@,
        },
        None => "未知质量"@,
    }
}

/// Resolves a playlist source into the media playlist to download, through
/// the master playlist where the source is one.
pub struct NestedParser {
    content_parser: ContentParser,
    master_parser: MasterParser,
    media_parser: MediaParser,
}

impl NestedParser {
    #[verifier::type_invariant]
    spec fn same_patterns(self) -> bool {
        &&& self.master_parser.patterns() == self.content_parser.patterns()
        &&& self.media_parser.patterns() == self.content_parser.patterns()
    }

    /// The regular expressions that mark a URL as an advertisement.
    pub closed spec fn patterns(&self) -> Seq<Seq<char>> {
        self.content_parser.patterns()
    }

    /// Takes the patterns where each of them is a regular expression; a
    /// malformed one is a parse error.
    pub fn new(ad_filters: Vec<String>) -> (r: Result<Self, M3u8Error>)
        ensures
            r is Ok <==> all_compile(texts(ad_filters@)),
            r matches Ok(p) ==> p.patterns() == texts(ad_filters@),
            r matches Err(e) ==> e.kind() == ErrorKind::ParseError,
    {
        let for_master = copy_strings(&ad_filters);
        let for_media = copy_strings(&ad_filters);
        assert(texts(for_master@) =~= texts(ad_filters@));
        assert(texts(for_media@) =~= texts(ad_filters@));
        let content_parser = match ContentParser::new(ad_filters) {
            Ok(p) => p,
            Err(e) => {
                return Err(e);
            },
        };
        let master_parser = match MasterParser::new(for_master) {
            Ok(p) => p,
            Err(e) => {
                return Err(e);
            },
        };
        let media_parser = match MediaParser::new(for_media) {
            Ok(p) => p,
            Err(e) => {
                return Err(e);
            },
        };
        Ok(Self { content_parser, master_parser, media_parser })
    }

    /// Reads a playlist source. `base_url` serves to resolve relative URLs
    /// where it is an absolute URL itself.
    pub fn parse_content(&self, content: &str, base_url: Option<&str>) -> (r: Result<
        NestedM3u8,
        M3u8Error,
    >)
        ensures
            match r {
                Ok(n) => nested_outcome(self.patterns(), slice_text(base_url), content@) == Ok::<
                    NestedView,
                    ErrorKind,
                >(n@),
                Err(e) => nested_outcome(self.patterns(), slice_text(base_url), content@) == Err::<
                    NestedView,
                    ErrorKind,
                >(e.kind()),
            },
    {
        proof {
            use_type_invariant(self);
        }
        let base = match base_url {
            Some(text) => BaseUrl::parse(text),
            None => None,
        };
        match self.content_parser.parse_content_type(content) {
            PlaylistType::Master => {
                let master = self.master_parser.parse(content, base.as_ref())?;
                let mut nested = NestedM3u8::new();
                nested.master_playlist = master;
                assert(nested@.media_playlists =~= Seq::empty());
                Ok(nested)
            },
            PlaylistType::Media => {
                let media = self.media_parser.parse(content, base.as_ref())?;
                let mut nested = NestedM3u8::new();
                assert(playlist_views(nested.media_playlists@.push(media)) =~= seq![media@]);
                nested.media_playlists.push(media);
                nested.selected_variant_index = Some(0);
                Ok(nested)
            },
            PlaylistType::Unknown => Err(
                M3u8Error::ParseError("无法识别的播放列表类型".to_owned()),
            ),
        }
    }

    /// The URL of the variant whose media playlist is to be fetched next, if
    /// one is still missing.
    pub fn next_variant_url(&self, nested: &NestedM3u8) -> (r: Option<String>)
        ensures
            match r {
                Some(url) => pending_variant(nested@) matches Some(k) && url@
                    == nested@.master_playlist.variants[k].url,
                None => pending_variant(nested@) is None,
            },
    {
        let k = nested.media_playlists.len();
        if k < nested.master_playlist.variants.len() {
            assert(nested@.master_playlist.variants[k as int]
                == nested.master_playlist.variants@[k as int]@);
            Some(nested.master_playlist.variants[k].url.clone())
        } else {
            None
        }
    }

    /// Tells whether the response to the request for a variant's media
    /// playlist can be used: a status other than success is a parse error.
    pub fn check_variant_response(&self, url: &str, status: u16) -> (r: Result<(), M3u8Error>)
        ensures
            r is Ok <==> is_success_status(status),
            r matches Err(e) ==> e.kind() == ErrorKind::ParseError,
    {
        if 200 <= status && status < 300 {
            Ok(())
        } else {
            let mut text: Vec<char> = Vec::new();
            push_str(&mut text, "无法获取变体流播放列表: ");
            push_str(&mut text, url);
            push_str(&mut text, " - ");
            push_decimal(&mut text, status as u64);
            Err(M3u8Error::ParseError(string_from_chars(text.as_slice())))
        }
    }

    /// Parses the media playlist of a variant, fetched from `url`; relative
    /// segment URLs are resolved against `url`.
    pub fn parse_variant_playlist(&self, url: &str, content: &str) -> (r: Result<
        M3u8Playlist,
        M3u8Error,
    >)
        ensures
            match r {
                Ok(p) => media_outcome(self.patterns(), usable_base(Some(url@)), content@) == Ok::<
                    PlaylistView,
                    ErrorKind,
                >(p@),
                Err(e) => media_outcome(self.patterns(), usable_base(Some(url@)), content@)
                    == Err::<PlaylistView, ErrorKind>(e.kind()),
            },
    {
        proof {
            use_type_invariant(self);
        }
        let base = BaseUrl::parse(url);
        self.media_parser.parse(content, base.as_ref())
    }

    /// Takes the fetched media playlist of the variant that is pending. Where
    /// it parses, it joins the media playlists, and once none is missing the
    /// variant of the best quality is selected. Where it does not parse, or
    /// no variant is pending, nothing changes and the failure is returned: a
    /// resolution either completes or yields nothing.
    pub fn accept_variant(&self, nested: &mut NestedM3u8, content: &str) -> (r: Result<
        (),
        M3u8Error,
    >)
        ensures
            final(nested)@.master_playlist == old(nested)@.master_playlist,
            match pending_variant(old(nested)@) {
                None => r matches Err(e) && e.kind() == ErrorKind::Other && final(nested)@ == old(
                    nested,
                )@,
                Some(k) => match media_outcome(
                    self.patterns(),
                    usable_base(Some(old(nested)@.master_playlist.variants[k].url)),
                    content@,
                ) {
                    Err(kind) => r matches Err(e) && e.kind() == kind && final(nested)@ == old(
                        nested,
                    )@,
                    Ok(media) => {
                        &&& r is Ok
                        &&& final(nested)@.media_playlists == old(nested)@.media_playlists.push(
                            media,
                        )
                        &&& match pending_variant(final(nested)@) {
                            Some(_) => final(nested)@.selected_variant_index == old(
                                nested,
                            )@.selected_variant_index,
                            None => final(nested)@.selected_variant_index matches Some(best)
                                && is_best_quality(
                                final(nested)@.master_playlist.variants,
                                best as int,
                            ),
                        }
                    },
                },
            },
    {
        let url = match self.next_variant_url(nested) {
            Some(url) => url,
            None => {
                return Err(M3u8Error::Other("没有待解析的变体流".to_owned()));
            },
        };
        let media = self.parse_variant_playlist(url.as_str(), content)?;
        proof {
            assert(playlist_views(nested.media_playlists@.push(media)) =~= playlist_views(
                nested.media_playlists@,
            ).push(media@));
        }
        nested.media_playlists.push(media);
        if nested.media_playlists.len() >= nested.master_playlist.variants.len() {
            proof {
                use_type_invariant(self);
            }
            let best = self.master_parser.get_best_quality_index(&nested.master_playlist);
            nested.selected_variant_index = Some(best);
        }
        Ok(())
    }

    /// The segments of the selected media playlist.
    pub fn get_selected_segments<'a>(&self, nested: &'a NestedM3u8) -> (r: Option<
        &'a Vec<M3u8Segment>,
    >)
        ensures
            match r {
                Some(segments) => nested@.selected() matches Some(p) && p.segments
                    == crate::types::segment_views(segments@),
                None => nested@.selected() is None,
            },
    {
        match nested.get_selected_variant() {
            Some(playlist) => {
                assert(nested@.media_playlists[nested.selected_variant_index->0 as int]
                    == playlist@);
                Some(&playlist.segments)
            },
            None => None,
        }
    }

    /// For each variant of the master playlist its index and what it is
    /// called: resolution and bandwidth as far as they are known.
    pub fn get_variants_info(&self, nested: &NestedM3u8) -> (r: Vec<(usize, String)>)
        ensures
            r@.len() == nested@.master_playlist.variants.len(),
            forall|i: int|
                0 <= i < r@.len() ==> (#[trigger] r@[i]).0 == i && r@[i].1@ == variant_info(
                    nested@.master_playlist.variants[i],
                ),
    {
        let ghost variants = nested@.master_playlist.variants;
        let n = nested.master_playlist.variants.len();
        let mut out: Vec<(usize, String)> = Vec::new();
        let mut i: usize = 0;
        while i < n
            invariant
                i <= n == nested.master_playlist.variants@.len(),
                variants == nested@.master_playlist.variants,
                out@.len() == i,
                forall|k: int|
                    0 <= k < i ==> (#[trigger] out@[k]).0 == k && out@[k].1@ == variant_info(
                        variants[k],
                    ),
            decreases n - i,
        {
            let variant = &nested.master_playlist.variants[i];
            assert(variants[i as int] == variant@);
            let mut text: Vec<char> = Vec::new();
            match variant.bandwidth {
                Some(bandwidth) => {
                    match variant.resolution {
                        Some((width, height)) => {
                            push_decimal(&mut text, width as u64);
                            push_str(&mut text, "x");
                            push_decimal(&mut text, height as u64);
                            push_str(&mut text, " @ ");
                        },
                        None => {},
                    }
                    push_decimal(&mut text, (bandwidth / 1000) as u64);
                    push_str(&mut text, " kbps");
                },
                None => {
                    push_str(&mut text, "未知质量");
                },
            }
            assert(text@ =~= variant_info(variant@));
            out.push((i, string_from_chars(text.as_slice())));
            i += 1;
        }
        out
    }
}

} // verus!
