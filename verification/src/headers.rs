use crate::text::{
    copy_range, index_of, lemma_index_of, string_from_chars, to_chars, trim, trim_chars,
};
use vstd::prelude::*;

verus! {

/// A header: its name and its value.
pub type HeaderView = (Seq<char>, Seq<char>);

/// The names and values that a list of headers holds.
pub open spec fn header_views(v: Seq<(String, String)>) -> Seq<HeaderView> {
    v.map_values(|h: (String, String)| (h.0@, h.1@))
}

/// The index of the first header named `name`, or the length of the list
/// where there is none.
pub open spec fn name_index(headers: Seq<HeaderView>, name: Seq<char>) -> int
    decreases headers.len(),
{
    if headers.len() == 0 || headers[0].0 == name {
        0
    } else {
        1 + name_index(headers.skip(1), name)
    }
}

/// Whether a header named `name` is in the list.
pub open spec fn has_name(headers: Seq<HeaderView>, name: Seq<char>) -> bool {
    exists|i: int| 0 <= i < headers.len() && (#[trigger] headers[i]).0 == name
}

/// The list with the header `name` set to `value`: the first header of that
/// name is replaced, or the header is added at the end.
pub open spec fn with_header(headers: Seq<HeaderView>, name: Seq<char>, value: Seq<char>) -> Seq<
    HeaderView,
> {
    let i = name_index(headers, name);
    if 0 <= i < headers.len() {
        headers.update(i, (name, value))
    } else {
        headers.push((name, value))
    }
}

/// The list with those of the first `n` of `defaults` added whose name it
/// does not hold yet.
pub open spec fn with_defaults(headers: Seq<HeaderView>, defaults: Seq<HeaderView>, n: int) -> Seq<
    HeaderView,
>
    decreases n,
{
    if n <= 0 {
        headers
    } else {
        let before = with_defaults(headers, defaults, n - 1);
        if has_name(before, defaults[n - 1].0) {
            before
        } else {
            before.push(defaults[n - 1])
        }
    }
}

/// What a line of the form `Name: Value` says: name and value are what
/// stands before and after its first colon, trimmed. A line without a colon
/// says nothing.
pub open spec fn parse_header(line: Seq<char>) -> Option<HeaderView> {
    let colon = index_of(line, ':');
    if 0 <= colon < line.len() {
        Some((trim(line.take(colon)), trim(line.skip(colon + 1))))
    } else {
        None
    }
}

/// The list after the first `n` of `lines` were applied to it in turn; lines
/// that say nothing are passed over.
pub open spec fn with_lines(headers: Seq<HeaderView>, lines: Seq<Seq<char>>, n: int) -> Seq<
    HeaderView,
>
    decreases n,
{
    if n <= 0 {
        headers
    } else {
        let before = with_lines(headers, lines, n - 1);
        match parse_header(lines[n - 1]) {
            Some((name, value)) => with_header(before, name, value),
            None => before,
        }
    }
}

/// `name_index` is the one index before which no header has the name and at
/// which the list ends or the header has it.
pub proof fn lemma_name_index(headers: Seq<HeaderView>, name: Seq<char>, k: int)
    requires
        0 <= k <= headers.len(),
        forall|i: int| 0 <= i < k ==> (#[trigger] headers[i]).0 != name,
        k == headers.len() || headers[k].0 == name,
    ensures
        name_index(headers, name) == k,
    decreases k,
{
    if k > 0 {
        let t = headers.skip(1);
        assert forall|i: int| 0 <= i < k - 1 implies (#[trigger] t[i]).0 != name by {
            assert(t[i] == headers[i + 1]);
        }
        lemma_name_index(t, name, k - 1);
    }
}

/// Finds the first header named `name`.
pub fn find_header(headers: &Vec<(String, String)>, name: &str) -> (r: Option<usize>)
    ensures
        match r {
            Some(i) => i < headers@.len() && name_index(header_views(headers@), name@) == i
                && header_views(headers@)[i as int].0 == name@,
            None => name_index(header_views(headers@), name@) == headers@.len() && !has_name(
                header_views(headers@),
                name@,
            ),
        },
{
    let ghost views = header_views(headers@);
    let mut i: usize = 0;
    while i < headers.len()
        invariant
            i <= headers@.len(),
            views == header_views(headers@),
            forall|k: int| 0 <= k < i ==> (#[trigger] views[k]).0 != name@,
        decreases headers@.len() - i,
    {
        assert(views[i as int].0 == headers@[i as int].0@);
        if crate::text::same_chars(to_chars(headers[i].0.as_str()).as_slice(), name) {
            proof {
                lemma_name_index(views, name@, i as int);
            }
            return Some(i);
        }
        i += 1;
    }
    proof {
        lemma_name_index(views, name@, i as int);
    }
    None
}

/// Sets the header `name` to `value`.
pub fn set_header(headers: &mut Vec<(String, String)>, name: String, value: String)
    ensures
        header_views(final(headers)@) == with_header(header_views(old(headers)@), name@, value@),
{
    let ghost before = header_views(headers@);
    match find_header(headers, name.as_str()) {
        Some(i) => {
            headers[i] = (name, value);
            assert(header_views(headers@) =~= before.update(i as int, (name@, value@)));
        },
        None => {
            headers.push((name, value));
            assert(header_views(headers@) =~= before.push((name@, value@)));
        },
    }
}

/// Reads a line of the form `Name: Value`.
pub fn read_header(line: &str) -> (r: Option<(String, String)>)
    ensures
        match r {
            Some(h) => parse_header(line@) == Some((h.0@, h.1@)),
            None => parse_header(line@) is None,
        },
{
    let chars = to_chars(line);
    let n = chars.len();
    let mut colon: usize = 0;
    while colon < n && chars[colon] != ':'
        invariant
            colon <= n == chars@.len(),
            forall|k: int| 0 <= k < colon ==> chars@[k] != ':',
        decreases n - colon,
    {
        colon += 1;
    }
    proof {
        lemma_index_of(chars@, ':', colon as int);
    }
    if colon == n {
        return None;
    }
    let name = copy_range(chars.as_slice(), 0, colon);
    let value = copy_range(chars.as_slice(), colon + 1, n);
    assert(name@ =~= chars@.take(colon as int));
    assert(value@ =~= chars@.skip(colon + 1));
    let name = trim_chars(name.as_slice());
    let value = trim_chars(value.as_slice());
    Some((string_from_chars(name.as_slice()), string_from_chars(value.as_slice())))
}

/// Applies lines of the form `Name: Value` to a list of headers in turn.
pub fn apply_header_lines(headers: &mut Vec<(String, String)>, lines: &Vec<String>)
    ensures
        header_views(final(headers)@) == with_lines(
            header_views(old(headers)@),
            crate::pattern::texts(lines@),
            lines@.len() as int,
        ),
{
    let ghost start = header_views(headers@);
    let ghost all = crate::pattern::texts(lines@);
    let mut i: usize = 0;
    while i < lines.len()
        invariant
            i <= lines@.len(),
            all == crate::pattern::texts(lines@),
            header_views(headers@) == with_lines(start, all, i as int),
        decreases lines@.len() - i,
    {
        assert(all[i as int] == lines@[i as int]@);
        match read_header(lines[i].as_str()) {
            Some((name, value)) => {
                set_header(headers, name, value);
            },
            None => {},
        }
        i += 1;
    }
}

/// Adds those of `defaults` to the list whose name it does not hold yet.
pub fn add_missing_headers(headers: &mut Vec<(String, String)>, defaults: Vec<(String, String)>)
    ensures
        header_views(final(headers)@) == with_defaults(
            header_views(old(headers)@),
            header_views(defaults@),
            defaults@.len() as int,
        ),
{
    let ghost start = header_views(headers@);
    let ghost all = header_views(defaults@);
    let mut defaults = defaults;
    let n = defaults.len();
    let mut rest: Vec<(String, String)> = Vec::new();
    // Take the defaults from the back, so that they can be moved out, and
    // bring them into their order again.
    while defaults.len() > 0
        invariant
            defaults@.len() + rest@.len() == n,
            forall|k: int| 0 <= k < defaults@.len() ==> header_views(defaults@)[k] == all[k],
            forall|k: int|
                0 <= k < rest@.len() ==> (#[trigger] header_views(rest@)[k]) == all[n - 1 - k],
            all.len() == n,
        decreases defaults@.len(),
    {
        let ghost before = defaults@;
        let ghost rest_before = rest@;
        let h = defaults.pop().unwrap();
        assert(header_views(before)[before.len() - 1] == (h.0@, h.1@));
        assert forall|k: int| 0 <= k < defaults@.len() implies header_views(defaults@)[k]
            == all[k] by {
            assert(header_views(defaults@)[k] == header_views(before)[k]);
        }
        rest.push(h);
        assert forall|k: int| 0 <= k < rest@.len() implies (#[trigger] header_views(rest@)[k])
            == all[n - 1 - k] by {
            if k < rest_before.len() {
                assert(header_views(rest@)[k] == header_views(rest_before)[k]);
            }
        }
    }
    let mut i: usize = 0;
    while i < n
        invariant
            i <= n,
            rest@.len() == n - i,
            all.len() == n,
            forall|k: int|
                0 <= k < rest@.len() ==> (#[trigger] header_views(rest@)[k]) == all[n - 1 - k],
            header_views(headers@) == with_defaults(start, all, i as int),
        decreases n - i,
    {
        let ghost rest_before = rest@;
        let ghost current = header_views(headers@);
        let h = rest.pop().unwrap();
        assert(header_views(rest_before)[rest_before.len() - 1] == (h.0@, h.1@));
        assert((h.0@, h.1@) == all[i as int]);
        assert forall|k: int| 0 <= k < rest@.len() implies (#[trigger] header_views(rest@)[k])
            == all[n - 1 - k] by {
            assert(header_views(rest@)[k] == header_views(rest_before)[k]);
        }
        match find_header(headers, h.0.as_str()) {
            Some(at) => {
                assert(current[at as int].0 == h.0@);
                assert(has_name(current, h.0@));
            },
            None => {
                headers.push(h);
                assert(header_views(headers@) =~= current.push(all[i as int]));
            },
        }
        i += 1;
    }
}

} // verus!
