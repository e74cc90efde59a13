use crate::error::{ErrorKind, M3u8Error};
use crate::number::{decimal_digits, push_decimal};
use crate::scheduler::is_success_status;
use crate::text::{push_str, string_from_chars};
use vstd::prelude::*;

verus! {

/// A segment of the stream together with its content, once that is at hand.
#[derive(Debug, Clone)]
pub struct Segment {
    pub url: String,
    /// Whether the segment was told to be an advertisement.
    pub is_ad: bool,
    /// The content of the segment; empty until it was fetched or found in
    /// the cache.
    pub data: Vec<u8>,
    /// Whether the content is at hand.
    pub is_ok: bool,
    /// Height and width of the picture, where known.
    pub size: Option<(u32, u32)>,
}

/// What a segment is, as plain values.
pub struct SegmentData {
    pub url: Seq<char>,
    pub is_ad: bool,
    pub data: Seq<u8>,
    pub is_ok: bool,
    pub size: Option<(u32, u32)>,
}

impl View for Segment {
    type V = SegmentData;

    open spec fn view(&self) -> SegmentData {
        SegmentData {
            url: self.url@,
            is_ad: self.is_ad,
            data: self.data@,
            is_ok: self.is_ok,
            size: self.size,
        }
    }
}

/// The views of a sequence of segments.
pub open spec fn segment_data(s: Seq<Segment>) -> Seq<SegmentData> {
    s.map_values(|x: Segment| x@)
}

/// Whether what a request brought is the content of a segment: a response
/// with a status of success and a body that is not empty.
pub open spec fn takes_reply(fetched: Result<(u16, Vec<u8>), String>) -> bool {
    fetched matches Ok((status, body)) && is_success_status(status) && body@.len() > 0
}

impl Segment {
    /// The segment at `url`, of which nothing else is known yet.
    pub fn new(url: String) -> (s: Self)
        ensures
            s@ == (SegmentData { url: url@, is_ad: false, data: Seq::empty(), is_ok: false, size: None }),
    {
        Self { url, is_ad: false, data: Vec::new(), is_ok: false, size: None }
    }

    /// Takes in what a request for the segment brought: the status and the
    /// body of the response, or the message of the failure. A body that is
    /// not empty, under a status of success, becomes the content. Any other
    /// status is a failed download, an empty body an empty error, and a
    /// failed request a failed download with its message. In all these cases
    /// the segment stays as it was.
    pub fn download(&mut self, fetched: Result<(u16, Vec<u8>), String>) -> (r: Result<
        (),
        M3u8Error,
    >)
        ensures
            r is Ok <==> takes_reply(fetched),
            r is Ok ==> final(self)@ == (SegmentData {
                data: fetched->Ok_0.1@,
                is_ok: true,
                ..old(self)@
            }),
            r is Err ==> final(self)@ == old(self)@,
            r matches Err(e) ==> match fetched {
                Ok((status, body)) => if !is_success_status(status) {
                    e.kind() == ErrorKind::DownloadFailed && e.message() == "HTTP 请求失败: "@
                        + decimal_digits(status as nat)
                } else {
                    e.kind() == ErrorKind::EmptyError
                },
                Err(message) => e.kind() == ErrorKind::DownloadFailed && e.message() == message@,
            },
    {
        match fetched {
            Ok((status, body)) => {
                if !(200 <= status && status < 300) {
                    let mut text: Vec<char> = Vec::new();
                    push_str(&mut text, "HTTP 请求失败: ");
                    push_decimal(&mut text, status as u64);
                    assert(text@ =~= "HTTP 请求失败: "@ + decimal_digits(status as nat));
                    return Err(M3u8Error::DownloadFailed(string_from_chars(text.as_slice())));
                }
                if body.len() == 0 {
                    return Err(M3u8Error::EmptyError("内容为空".to_owned()));
                }
                self.data = body;
                self.is_ok = true;
                Ok(())
            },
            Err(message) => Err(M3u8Error::DownloadFailed(message)),
        }
    }

    /// Reads the size of the picture from the content. That is not supported:
    /// the segment stays as it is.
    pub fn decode_resolution(&mut self) -> (r: Result<(), M3u8Error>)
        ensures
            r matches Err(e) && e.kind() == ErrorKind::Other,
            final(self)@ == old(self)@,
    {
        Err(M3u8Error::Other("当前版本不支持解析TS片段的分辨率".to_owned()))
    }
}

} // verus!
