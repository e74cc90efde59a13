use crate::number::{push_padded, zero_padded};
use crate::text::{push_chars, push_str, string_from_chars, to_chars};
use crate::utils::common::{md5_hex, Funcs};
use vstd::prelude::*;

verus! {

/// The path of `name` in the directory `dir`: the name alone where the
/// directory is the empty path, and else the directory, a slash unless it
/// ends in one, and the name.
pub open spec fn join_path(dir: Seq<char>, name: Seq<char>) -> Seq<char> {
    if dir.len() == 0 {
        name
    } else if dir.last() == '/' {
        dir + name
    } else {
        dir + "/"@ + name
    }
}

/// The name of the directory that caches the segments of the playlist
/// `content`: it is made of the digest of the text, so that the same
/// playlist finds its segments again and another one never does.
pub open spec fn cache_dir_name(content: Seq<char>) -> Seq<char> {
    "rust_m3u8_"@ + md5_hex(content)
}

/// The path of the directory that caches the segments of the playlist
/// `content` below `root`.
pub open spec fn cache_dir(root: Seq<char>, content: Seq<char>) -> Seq<char> {
    join_path(root, cache_dir_name(content))
}

/// The name of the file that caches segment `index`.
pub open spec fn cache_file_name(index: nat) -> Seq<char> {
    zero_padded(index, 8) + ".ts"@
}

/// The path of the file that caches segment `index` in the directory `dir`.
pub open spec fn cache_file(dir: Seq<char>, index: nat) -> Seq<char> {
    join_path(dir, cache_file_name(index))
}

/// Puts the path of a directory and a name together.
pub fn join(dir: &str, name: &[char]) -> (path: String)
    ensures
        path@ == join_path(dir@, name@),
{
    let chars = to_chars(dir);
    let n = chars.len();
    let mut text: Vec<char> = Vec::new();
    push_chars(&mut text, chars.as_slice());
    if n > 0 && chars[n - 1] != '/' {
        push_str(&mut text, "/");
    }
    push_chars(&mut text, name);
    assert(text@ =~= join_path(dir@, name@));
    string_from_chars(text.as_slice())
}

/// Where the segments of one playlist are cached.
#[derive(Debug, Clone)]
pub struct TempDir {
    path: String,
}

impl View for TempDir {
    type V = Seq<char>;

    closed spec fn view(&self) -> Seq<char> {
        self.path@
    }
}

impl TempDir {
    /// A cache that has no place yet.
    pub fn new() -> (t: Self)
        ensures
            t@.len() == 0,
    {
        Self { path: String::new() }
    }

    /// Places the cache for the playlist `content` below the directory
    /// `root`.
    pub fn init(&mut self, root: &str, content: &str)
        ensures
            final(self)@ == cache_dir(root@, content@),
    {
        let digest = Funcs::content_digest(content);
        let mut name: Vec<char> = Vec::new();
        push_str(&mut name, "rust_m3u8_");
        push_str(&mut name, digest.as_str());
        assert(name@ =~= cache_dir_name(content@));
        self.path = join(root, name.as_slice());
    }

    /// The path of the cache's directory.
    pub fn path(&self) -> (p: &str)
        ensures
            p@ == self@,
    {
        self.path.as_str()
    }

    /// The path of the file that caches segment `index`.
    pub fn get_file_path(&self, index: usize) -> (p: String)
        ensures
            p@ == cache_file(self@, index as nat),
    {
        let mut name: Vec<char> = Vec::new();
        push_padded(&mut name, index as u64, 8);
        push_str(&mut name, ".ts");
        assert(name@ =~= cache_file_name(index as nat));
        join(self.path.as_str(), name.as_slice())
    }

    /// Whether what was read from a cached file counts as the segment: an
    /// empty file does not, it is a miss.
    pub fn is_hit(data: &[u8]) -> (b: bool)
        ensures
            b == (data@.len() > 0),
    {
        data.len() > 0
    }
}

} // verus!
