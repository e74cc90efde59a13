pub mod downloader;
pub mod error;
pub mod headers;
pub mod link;
pub mod merger;
pub mod number;
pub mod parser;
pub mod pattern;
pub mod pipeline;
pub mod probe;
pub mod proxy;
pub mod scheduler;
pub mod text;
pub mod types;
pub mod utils;

pub use downloader::M3u8Downloader;
pub use error::M3u8Error;
pub use merger::VideoMerger;
pub use parser::{ContentParser, MasterParser, MediaParser, NestedParser};
pub use proxy::ProxyConfig;
pub use types::M3u8Segment;
pub use types::{M3u8Playlist, NestedM3u8, PlaylistType};
