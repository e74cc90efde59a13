pub mod filter;
pub mod m3u8;
pub mod segment;
