use crate::text::{has_prefix, push_chars, push_str, starts_with, string_from_chars, to_chars};
use md5::{Digest, Md5};
use vstd::prelude::*;

verus! {

/// The MD5 digest of the UTF-8 bytes of `text`, as 32 lower-case hexadecimal
/// digits.
pub uninterp spec fn md5_hex(text: Seq<char>) -> Seq<char>;

/// Whether `src` names a resource to be fetched over HTTP.
pub open spec fn is_online(src: Seq<char>) -> bool {
    has_prefix(src, "http://"@) || has_prefix(src, "https://"@)
}

/// Whether `name` ends with `.ts`.
pub open spec fn has_ts_suffix(name: Seq<char>) -> bool {
    name.len() >= 3 && name.subrange(name.len() - 3, name.len() as int) == ".ts"@
}

/// `name` with `.ts` at its end, added where it is missing.
pub open spec fn ts_name(name: Seq<char>) -> Seq<char> {
    if has_ts_suffix(name) {
        name
    } else {
        name + ".ts"@
    }
}

/// Small helpers that need no state.
pub struct Funcs;

impl Funcs {
    /// The name of the output file for `filename`: the same with the
    /// extension `.ts`, which is added where it is missing.
    pub fn ts_filepath(filename: &str) -> (path: String)
        ensures
            path@ == ts_name(filename@),
    {
        let chars = to_chars(filename);
        let n = chars.len();
        let ghost name = chars@;
        if n >= 3 && chars[n - 3] == '.' && chars[n - 2] == 't' && chars[n - 1] == 's' {
            proof {
                reveal_strlit(".ts");
                assert(name.subrange(n - 3, n as int) =~= ".ts"@);
            }
            filename.to_owned()
        } else {
            proof {
                reveal_strlit(".ts");
                if has_ts_suffix(name) {
                    let tail = name.subrange(n - 3, n as int);
                    assert(tail[0] == name[n - 3]);
                    assert(tail[1] == name[n - 2]);
                    assert(tail[2] == name[n - 1]);
                }
            }
            let mut out: Vec<char> = Vec::new();
            push_chars(&mut out, chars.as_slice());
            push_str(&mut out, ".ts");
            assert(out@ =~= name + ".ts"@);
            string_from_chars(out.as_slice())
        }
    }

    /// Tells whether `src` names a resource to be fetched over HTTP.
    pub fn is_online_resource(src: &str) -> (b: bool)
        ensures
            b == is_online(src@),
    {
        let chars = to_chars(src);
        starts_with(chars.as_slice(), "http://") || starts_with(chars.as_slice(), "https://")
    }

    /// The MD5 digest of `s` in hexadecimal, computed by the `md-5` crate:
    /// `Md5::new`, `update` with the bytes of `s`, `finalize`, and the lower
    /// hexadecimal form of the result. It depends on the text alone.
    #[verifier::external_body]
    pub fn content_digest(s: &str) -> (digest: String)
        ensures
            digest@ == md5_hex(s@),
    {
        let mut hasher = Md5::new();
        hasher.update(s.as_bytes());
        format!("{:x}", hasher.finalize())
    }
}

} // verus!
