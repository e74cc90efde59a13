use vstd::prelude::*;
use vstd::string::StringExecFns;

verus! {

/// What went wrong, without the message.
#[derive(Debug, Clone, Copy, PartialEq, Eq, Structural)]
pub enum ErrorKind {
    Network,
    Io,
    UrlParse,
    ParseError,
    EmptyError,
    MergeError,
    ConfigError,
    DownloadFailed,
    Other,
}

/// The errors of the downloader; each carries a message for the user.
#[derive(Debug, Clone)]
pub enum M3u8Error {
    /// A transport failure.
    Network(String),
    /// A failure of the local file system.
    Io(String),
    /// A URL that could not be resolved.
    UrlParse(String),
    /// Malformed or unrecognised playlist or attribute syntax.
    ParseError(String),
    /// A well-formed input that holds nothing usable.
    EmptyError(String),
    /// The segments could not be merged into one file.
    MergeError(String),
    /// An invalid proxy or filter specification.
    ConfigError(String),
    /// A segment that could not be fetched within its retry budget.
    DownloadFailed(String),
    /// Anything else.
    Other(String),
}

impl M3u8Error {
    /// The kind of this error.
    pub open spec fn kind(&self) -> ErrorKind {
        match self {
            M3u8Error::Network(_) => ErrorKind::Network,
            M3u8Error::Io(_) => ErrorKind::Io,
            M3u8Error::UrlParse(_) => ErrorKind::UrlParse,
            M3u8Error::ParseError(_) => ErrorKind::ParseError,
            M3u8Error::EmptyError(_) => ErrorKind::EmptyError,
            M3u8Error::MergeError(_) => ErrorKind::MergeError,
            M3u8Error::ConfigError(_) => ErrorKind::ConfigError,
            M3u8Error::DownloadFailed(_) => ErrorKind::DownloadFailed,
            M3u8Error::Other(_) => ErrorKind::Other,
        }
    }

    /// The message that this error carries.
    pub open spec fn message(&self) -> Seq<char> {
        match self {
            M3u8Error::Network(m) => m@,
            M3u8Error::Io(m) => m@,
            M3u8Error::UrlParse(m) => m@,
            M3u8Error::ParseError(m) => m@,
            M3u8Error::EmptyError(m) => m@,
            M3u8Error::MergeError(m) => m@,
            M3u8Error::ConfigError(m) => m@,
            M3u8Error::DownloadFailed(m) => m@,
            M3u8Error::Other(m) => m@,
        }
    }

    /// The words that introduce an error of the given kind.
    pub open spec fn label(kind: ErrorKind) -> Seq<char> {
        match kind {
            ErrorKind::Network => "网络请求错误: "@,
            ErrorKind::Io => "IO 错误: "@,
            ErrorKind::UrlParse => "URL 解析错误: "@,
            ErrorKind::ParseError => "M3U8 解析错误: "@,
            ErrorKind::EmptyError => "内容为空: "@,
            ErrorKind::MergeError => "文件合并错误: "@,
            ErrorKind::ConfigError => "配置错误: "@,
            ErrorKind::DownloadFailed => "下载失败: "@,
            ErrorKind::Other => "其他错误: "@,
        }
    }

    /// Tells the kind of this error.
    pub fn error_kind(&self) -> (k: ErrorKind)
        ensures
            k == self.kind(),
    {
        match self {
            M3u8Error::Network(_) => ErrorKind::Network,
            M3u8Error::Io(_) => ErrorKind::Io,
            M3u8Error::UrlParse(_) => ErrorKind::UrlParse,
            M3u8Error::ParseError(_) => ErrorKind::ParseError,
            M3u8Error::EmptyError(_) => ErrorKind::EmptyError,
            M3u8Error::MergeError(_) => ErrorKind::MergeError,
            M3u8Error::ConfigError(_) => ErrorKind::ConfigError,
            M3u8Error::DownloadFailed(_) => ErrorKind::DownloadFailed,
            M3u8Error::Other(_) => ErrorKind::Other,
        }
    }

    /// Renders the error for the user: the words for its kind, then its
    /// message.
    pub fn to_string(&self) -> (s: String)
        ensures
            s@ == Self::label(self.kind()) + self.message(),
    {
        match self {
            M3u8Error::Network(m) => String::from_str("网络请求错误: ").concat(m.as_str()),
            M3u8Error::Io(m) => String::from_str("IO 错误: ").concat(m.as_str()),
            M3u8Error::UrlParse(m) => String::from_str("URL 解析错误: ").concat(m.as_str()),
            M3u8Error::ParseError(m) => String::from_str("M3U8 解析错误: ").concat(m.as_str()),
            M3u8Error::EmptyError(m) => String::from_str("内容为空: ").concat(m.as_str()),
            M3u8Error::MergeError(m) => String::from_str("文件合并错误: ").concat(m.as_str()),
            M3u8Error::ConfigError(m) => String::from_str("配置错误: ").concat(m.as_str()),
            M3u8Error::DownloadFailed(m) => String::from_str("下载失败: ").concat(m.as_str()),
            M3u8Error::Other(m) => String::from_str("其他错误: ").concat(m.as_str()),
        }
    }
}

} // verus!
