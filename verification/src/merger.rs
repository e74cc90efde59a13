use crate::error::{ErrorKind, M3u8Error};
use crate::number::{decimal_digits, push_decimal, push_padded, zero_padded};
use crate::pattern::texts;
use crate::text::{push_str, string_from_chars, to_chars};
use crate::types::{segment_views, M3u8Segment, SegmentView};
use vstd::prelude::*;

verus! {

/// The name of the file that holds the segment with the given sequence
/// number.
pub open spec fn segment_file(sequence: nat) -> Seq<char> {
    "segment_"@ + zero_padded(sequence, 6) + ".ts"@
}

/// `path` with every backslash turned into a slash.
pub open spec fn forward_slashes(path: Seq<char>) -> Seq<char> {
    path.map_values(
        |c: char|
            if c == '\\' {
                '/'
            } else {
                c
            },
    )
}

/// The line that names `path` in a list of files to concatenate.
pub open spec fn list_line(path: Seq<char>) -> Seq<char> {
    "file '"@ + forward_slashes(path) + "'\n"@
}

/// The list of the first `n` of `paths`, one line each.
pub open spec fn list_upto(paths: Seq<Seq<char>>, n: int) -> Seq<char>
    decreases n,
{
    if n <= 0 {
        Seq::empty()
    } else {
        list_upto(paths, n - 1) + list_line(paths[n - 1])
    }
}

/// The arguments that make the transcoder concatenate the files of `list`
/// into `output` without re-encoding them.
pub open spec fn concat_arguments(list: Seq<char>, output: Seq<char>) -> Seq<Seq<char>> {
    seq!["-f"@, "concat"@, "-safe"@, "0"@, "-i"@, list, "-c"@, "copy"@, "-y"@, output]
}

/// Whether segment `i` is at hand according to `present`; a segment of which
/// `present` says nothing is not.
pub open spec fn is_present(present: Seq<bool>, i: int) -> bool {
    0 <= i < present.len() && present[i]
}

/// The sequence numbers of those of the first `n` segments that are not at
/// hand.
pub open spec fn missing_upto(segments: Seq<SegmentView>, present: Seq<bool>, n: int) -> Seq<nat>
    decreases n,
{
    if n <= 0 {
        Seq::empty()
    } else if is_present(present, n - 1) {
        missing_upto(segments, present, n - 1)
    } else {
        missing_upto(segments, present, n - 1).push(segments[n - 1].sequence)
    }
}

/// Nothing is missing exactly where every segment is at hand.
pub proof fn lemma_missing_none(segments: Seq<SegmentView>, present: Seq<bool>, n: int)
    requires
        0 <= n <= segments.len(),
    ensures
        missing_upto(segments, present, n).len() == 0 <==> forall|i: int|
            0 <= i < n ==> is_present(present, i),
    decreases n,
{
    if n > 0 {
        lemma_missing_none(segments, present, n - 1);
        if !is_present(present, n - 1) {
        }
    }
}

/// The first `n` of `numbers` in decimal, with a comma and a space between
/// them.
pub open spec fn listed_numbers(numbers: Seq<nat>, n: int) -> Seq<char>
    decreases n,
{
    if n <= 0 {
        Seq::empty()
    } else if n == 1 {
        decimal_digits(numbers[0])
    } else {
        listed_numbers(numbers, n - 1) + ", "@ + decimal_digits(numbers[n - 1])
    }
}

/// The complaint about segments that are not at hand: how many they are,
/// and their sequence numbers.
pub open spec fn missing_text(missing: Seq<nat>) -> Seq<char> {
    "片段文件不存在: "@ + decimal_digits(missing.len()) + " 个 ["@ + listed_numbers(
        missing,
        missing.len() as int,
    ) + "]"@
}

/// How the transcoder ended.
#[derive(Debug, Clone, Copy, PartialEq, Eq, Structural)]
pub enum TranscoderOutcome {
    /// It ran and reported success.
    Succeeded,
    /// It ran and reported a failure.
    Failed,
    /// It could not be started.
    Unavailable,
}

/// Puts the segments together into one file.
pub struct VideoMerger;

impl VideoMerger {
    pub fn new() -> (m: Self) {
        Self
    }

    /// The name of the file that holds the segment with the given sequence
    /// number.
    pub fn segment_file_name(&self, sequence: usize) -> (name: String)
        ensures
            name@ == segment_file(sequence as nat),
    {
        let mut text: Vec<char> = Vec::new();
        push_str(&mut text, "segment_");
        push_padded(&mut text, sequence as u64, 6);
        push_str(&mut text, ".ts");
        assert(text@ =~= segment_file(sequence as nat));
        string_from_chars(text.as_slice())
    }

    /// The sequence numbers of the segments that are not at hand, in the
    /// order of the segments. `present` says of each segment, by its place in
    /// the list, whether its file exists.
    pub fn missing_segments(&self, segments: &[M3u8Segment], present: &Vec<bool>) -> (missing: Vec<
        usize,
    >)
        ensures
            missing@.map_values(|s: usize| s as nat) == missing_upto(
                segment_views(segments@),
                present@,
                segments@.len() as int,
            ),
    {
        let ghost all = segment_views(segments@);
        let mut missing: Vec<usize> = Vec::new();
        let mut i: usize = 0;
        assert(missing@.map_values(|s: usize| s as nat) =~= Seq::<nat>::empty());
        while i < segments.len()
            invariant
                i <= segments@.len(),
                all == segment_views(segments@),
                missing@.map_values(|s: usize| s as nat) == missing_upto(all, present@, i as int),
            decreases segments@.len() - i,
        {
            let here = i < present.len() && present[i];
            if !here {
                let ghost before = missing@;
                missing.push(segments[i].sequence);
                assert(missing@.map_values(|s: usize| s as nat) =~= before.map_values(
                    |s: usize| s as nat,
                ).push(all[i as int].sequence));
            }
            i += 1;
        }
        missing
    }

    /// Tells whether the segments can be merged: a segment that is not at
    /// hand is a merge error, whose message gives the number of the missing
    /// segments and their sequence numbers.
    pub fn check_complete(&self, segments: &[M3u8Segment], present: &Vec<bool>) -> (r: Result<
        (),
        M3u8Error,
    >)
        ensures
            r is Ok <==> forall|i: int| 0 <= i < segments@.len() ==> is_present(present@, i),
            r matches Err(e) ==> e.kind() == ErrorKind::MergeError && e.message() == missing_text(
                missing_upto(segment_views(segments@), present@, segments@.len() as int),
            ),
    {
        let missing = self.missing_segments(segments, present);
        let ghost numbers = missing_upto(segment_views(segments@), present@, segments@.len() as int);
        proof {
            lemma_missing_none(segment_views(segments@), present@, segments@.len() as int);
        }
        if missing.len() == 0 {
            return Ok(());
        }
        let mut text: Vec<char> = Vec::new();
        push_str(&mut text, "片段文件不存在: ");
        push_decimal(&mut text, missing.len() as u64);
        push_str(&mut text, " 个 [");
        let ghost head = text@;
        let mut i: usize = 0;
        assert(text@ =~= head + listed_numbers(numbers, 0));
        while i < missing.len()
            invariant
                i <= missing@.len(),
                numbers == missing@.map_values(|s: usize| s as nat),
                text@ == head + listed_numbers(numbers, i as int),
            decreases missing@.len() - i,
        {
            if i > 0 {
                push_str(&mut text, ", ");
            }
            assert(numbers[i as int] == missing@[i as int] as nat);
            push_decimal(&mut text, missing[i] as u64);
            assert(text@ =~= head + listed_numbers(numbers, i + 1));
            i += 1;
        }
        push_str(&mut text, "]");
        assert(text@ =~= missing_text(numbers));
        Err(M3u8Error::MergeError(string_from_chars(text.as_slice())))
    }

    /// The list of files that the transcoder is to concatenate: one line for
    /// each path, in order, with slashes for backslashes.
    pub fn file_list(&self, paths: &Vec<String>) -> (list: String)
        ensures
            list@ == list_upto(texts(paths@), paths@.len() as int),
    {
        let ghost all = texts(paths@);
        let mut text: Vec<char> = Vec::new();
        let mut i: usize = 0;
        while i < paths.len()
            invariant
                i <= paths@.len(),
                all == texts(paths@),
                text@ == list_upto(all, i as int),
            decreases paths@.len() - i,
        {
            let ghost before = text@;
            let path = to_chars(paths[i].as_str());
            assert(path@ == all[i as int]);
            push_str(&mut text, "file '");
            let ghost head = text@;
            let mut k: usize = 0;
            while k < path.len()
                invariant
                    k <= path@.len(),
                    text@ == head + forward_slashes(path@.take(k as int)),
                decreases path@.len() - k,
            {
                let c = path[k];
                text.push(
                    if c == '\\' {
                        '/'
                    } else {
                        c
                    },
                );
                assert(text@ =~= head + forward_slashes(path@.take(k + 1)));
                k += 1;
            }
            assert(path@.take(path@.len() as int) =~= path@);
            push_str(&mut text, "'\n");
            assert(text@ =~= before + list_line(path@));
            i += 1;
        }
        string_from_chars(text.as_slice())
    }

    /// The arguments with which the transcoder is started.
    pub fn transcoder_arguments(&self, list_path: &str, output_path: &str) -> (args: Vec<String>)
        ensures
            texts(args@) == concat_arguments(list_path@, output_path@),
    {
        let mut args: Vec<String> = Vec::new();
        args.push("-f".to_owned());
        args.push("concat".to_owned());
        args.push("-safe".to_owned());
        args.push("0".to_owned());
        args.push("-i".to_owned());
        args.push(list_path.to_owned());
        args.push("-c".to_owned());
        args.push("copy".to_owned());
        args.push("-y".to_owned());
        args.push(output_path.to_owned());
        assert(texts(args@) =~= concat_arguments(list_path@, output_path@));
        args
    }

    /// Whether the segments are to be concatenated byte by byte after all:
    /// that is so unless the transcoder ran and reported success.
    pub fn needs_plain_merge(&self, outcome: TranscoderOutcome) -> (b: bool)
        ensures
            b == (outcome != TranscoderOutcome::Succeeded),
    {
        match outcome {
            TranscoderOutcome::Succeeded => false,
            _ => true,
        }
    }
}

} // verus!
