pub mod content_parser;
pub mod master_parser;
pub mod media_parser;
pub mod nested_parser;

pub use content_parser::ContentParser;
pub use master_parser::MasterParser;
pub use media_parser::MediaParser;
pub use nested_parser::NestedParser;
