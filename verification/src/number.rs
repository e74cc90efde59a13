use vstd::prelude::*;

verus! {

/// Whether `c` is one of the ASCII digits `0` to `9`.
pub open spec fn is_digit(c: char) -> bool {
    0x30 <= c as u32 <= 0x39
}

/// The value of the ASCII digit `c`.
pub open spec fn digit_value(c: char) -> nat {
    (c as u32 - 0x30) as nat
}

/// Whether `s` holds ASCII digits only.
pub open spec fn all_digits(s: Seq<char>) -> bool {
    forall|i: int| 0 <= i < s.len() ==> is_digit(#[trigger] s[i])
}

/// The number that the digits of `s` write in base ten; 0 for the empty text.
pub open spec fn decimal_value(s: Seq<char>) -> nat
    decreases s.len(),
{
    if s.len() == 0 {
        0
    } else {
        decimal_value(s.drop_last()) * 10 + digit_value(s.last())
    }
}

/// `s` without one leading plus sign.
pub open spec fn unsigned_body(s: Seq<char>) -> Seq<char> {
    if s.len() > 0 && s[0] == '+' {
        s.skip(1)
    } else {
        s
    }
}

/// The unsigned decimal number that `s` writes, if it writes one that is at
/// most `max`: an optional plus sign, then one or more ASCII digits.
pub open spec fn parse_unsigned(s: Seq<char>, max: nat) -> Option<nat> {
    let body = unsigned_body(s);
    if body.len() > 0 && all_digits(body) && decimal_value(body) <= max {
        Some(decimal_value(body))
    } else {
        None
    }
}

/// A number is at least what any prefix of its digits writes.
pub proof fn lemma_decimal_value_prefix(s: Seq<char>, k: int)
    requires
        0 <= k <= s.len(),
    ensures
        decimal_value(s.take(k)) <= decimal_value(s),
    decreases s.len() - k,
{
    if k == s.len() {
        assert(s.take(k) =~= s);
    } else {
        assert(s.drop_last().take(k) =~= s.take(k));
        lemma_decimal_value_prefix(s.drop_last(), k);
    }
}

/// Tests a character for being an ASCII digit.
pub fn is_ascii_digit(c: char) -> (b: bool)
    ensures
        b == is_digit(c),
{
    let n: u32 = c as u32;
    0x30 <= n && n <= 0x39
}

/// Reads the digits `s[from..to]` as a number, or reports that one of them is
/// no digit or that the number exceeds `max`. No digits at all write 0.
fn read_digits(s: &[char], from: usize, to: usize, max: u64) -> (r: Option<u64>)
    requires
        from <= to <= s@.len(),
    ensures
        r == (if all_digits(s@.subrange(from as int, to as int)) && decimal_value(
            s@.subrange(from as int, to as int),
        ) <= max {
            Some(decimal_value(s@.subrange(from as int, to as int)) as u64)
        } else {
            None
        }),
{
    let ghost body = s@.subrange(from as int, to as int);
    let mut acc: u64 = 0;
    let mut i: usize = from;
    assert(body.take(0) =~= Seq::<char>::empty());
    while i < to
        invariant
            from <= i <= to <= s@.len(),
            body == s@.subrange(from as int, to as int),
            all_digits(body.take(i - from)),
            acc == decimal_value(body.take(i - from)),
            acc <= max,
        decreases to - i,
    {
        let c = s[i];
        assert(body[i - from] == c);
        if !is_ascii_digit(c) {
            return None;
        }
        let d: u64 = (c as u32 - 0x30) as u64;
        proof {
            let next = body.take(i - from + 1);
            assert(next.drop_last() =~= body.take(i - from));
            assert(next.last() == c);
            assert(decimal_value(next) == acc * 10 + d);
            assert(all_digits(next)) by {
                assert forall|k: int| 0 <= k < next.len() implies is_digit(#[trigger] next[k]) by {
                    if k < i - from {
                        assert(next[k] == body.take(i - from)[k]);
                    }
                }
            }
            lemma_decimal_value_prefix(body, i - from + 1);
        }
        if acc > max / 10 {
            return None;
        }
        let t: u64 = acc * 10;
        if d > max - t {
            return None;
        }
        acc = t + d;
        i += 1;
    }
    assert(body.take(to - from) =~= body);
    Some(acc)
}

/// Reads `s` as an unsigned decimal number of at most `max`.
pub fn parse_number(s: &[char], max: u64) -> (r: Option<u64>)
    ensures
        r == match parse_unsigned(s@, max as nat) {
            Some(v) => Some(v as u64),
            None => None,
        },
{
    let n = s.len();
    let from: usize = if n > 0 && s[0] == '+' {
        1
    } else {
        0
    };
    assert(s@.subrange(from as int, n as int) =~= unsigned_body(s@));
    if from == n {
        None
    } else {
        read_digits(s, from, n, max)
    }
}

/// The `u32` that `s` writes, if it writes one.
pub open spec fn parse_u32_spec(s: Seq<char>) -> Option<u32> {
    match parse_unsigned(s, u32::MAX as nat) {
        Some(v) => Some(v as u32),
        None => None,
    }
}

/// The `usize` that `s` writes, if it writes one.
pub open spec fn parse_usize_spec(s: Seq<char>) -> Option<usize> {
    match parse_unsigned(s, usize::MAX as nat) {
        Some(v) => Some(v as usize),
        None => None,
    }
}

/// Reads `s` as a `u32`.
pub fn parse_u32(s: &[char]) -> (r: Option<u32>)
    ensures
        r == parse_u32_spec(s@),
{
    match parse_number(s, 0xFFFF_FFFF) {
        Some(v) => Some(v as u32),
        None => None,
    }
}

/// Reads `s` as a `usize`.
pub fn parse_usize(s: &[char]) -> (r: Option<usize>)
    ensures
        r == parse_usize_spec(s@),
{
    match parse_number(s, usize::MAX as u64) {
        Some(v) => Some(v as usize),
        None => None,
    }
}


/// Ten to the power `e`.
pub open spec fn pow10(e: nat) -> nat
    decreases e,
{
    if e == 0 {
        1
    } else {
        10 * pow10((e - 1) as nat)
    }
}

/// The first six digits of `f`, with zeros where `f` has fewer.
pub open spec fn six_places(f: Seq<char>) -> Seq<char> {
    Seq::new(
        6,
        |i: int|
            if i < f.len() {
                f[i]
            } else {
                '0'
            },
    )
}

/// The part of `body` before its first full stop.
pub open spec fn whole_part(body: Seq<char>) -> Seq<char> {
    body.take(crate::text::index_of(body, '.'))
}

/// The part of `body` after its first full stop; empty where there is none.
pub open spec fn fraction_part(body: Seq<char>) -> Seq<char> {
    let dot = crate::text::index_of(body, '.');
    if 0 <= dot < body.len() {
        body.skip(dot + 1)
    } else {
        Seq::empty()
    }
}

/// The millionths that the decimal number `s` writes, if it writes one that
/// fits 64 bits: an optional plus sign, digits, and optionally a full stop and
/// more digits, with a digit on at least one side. Digits after the sixth
/// decimal place are cut off.
pub open spec fn parse_micros(s: Seq<char>) -> Option<nat> {
    let body = unsigned_body(s);
    let whole = whole_part(body);
    let fraction = fraction_part(body);
    let value = decimal_value(whole) * 1_000_000 + decimal_value(six_places(fraction));
    if all_digits(whole) && all_digits(fraction) && whole.len() + fraction.len() > 0 && value
        <= u64::MAX {
        Some(value)
    } else {
        None
    }
}

/// Whether all of `s[from..]` are ASCII digits.
fn digits_only(s: &[char], from: usize) -> (b: bool)
    requires
        from <= s@.len(),
    ensures
        b == all_digits(s@.skip(from as int)),
{
    let n = s.len();
    let mut i: usize = from;
    while i < n
        invariant
            from <= i <= n == s@.len(),
            forall|k: int| from <= k < i ==> is_digit(#[trigger] s@[k]),
        decreases n - i,
    {
        if !is_ascii_digit(s[i]) {
            assert(s@.skip(from as int)[i - from] == s@[i as int]);
            return false;
        }
        i += 1;
    }
    assert forall|k: int| 0 <= k < s@.skip(from as int).len() implies is_digit(
        #[trigger] s@.skip(from as int)[k],
    ) by {
        assert(s@.skip(from as int)[k] == s@[from + k]);
    }
    true
}

/// Reads the first six decimal places of the digits `s[from..]`.
fn read_six_places(s: &[char], from: usize) -> (r: u64)
    requires
        from <= s@.len(),
        all_digits(s@.skip(from as int)),
    ensures
        r == decimal_value(six_places(s@.skip(from as int))),
        r < 1_000_000,
{
    let n = s.len();
    let ghost f = s@.skip(from as int);
    let ghost six = six_places(f);
    let mut acc: u64 = 0;
    let mut i: usize = 0;
    assert(six.take(0) =~= Seq::<char>::empty());
    while i < 6
        invariant
            i <= 6,
            from <= n == s@.len(),
            f == s@.skip(from as int),
            six == six_places(f),
            all_digits(f),
            acc == decimal_value(six.take(i as int)),
            acc < pow10(i as nat),
        decreases 6 - i,
    {
        let d: u64 = if i < n - from {
            assert(f[i as int] == s@[from + i]);
            assert(is_digit(f[i as int]));
            (s[from + i] as u32 - 0x30) as u64
        } else {
            0
        };
        proof {
            reveal_with_fuel(pow10, 8);
            let next = six.take(i + 1);
            assert(next.drop_last() =~= six.take(i as int));
            assert(digit_value(next.last()) == d);
        }
        acc = acc * 10 + d;
        i += 1;
    }
    proof {
        reveal_with_fuel(pow10, 8);
        assert(six.take(6) =~= six);
    }
    acc
}

/// The millionths of the decimal number `s`, or 0 where `s` writes none.
pub open spec fn micros_or_zero(s: Seq<char>) -> u64 {
    match parse_micros(s) {
        Some(v) => v as u64,
        None => 0,
    }
}

/// Reads `s` as a decimal number and returns its millionths.
pub fn parse_decimal_micros(s: &[char]) -> (r: Option<u64>)
    ensures
        r == match parse_micros(s@) {
            Some(v) => Some(v as u64),
            None => None,
        },
{
    let n = s.len();
    let from: usize = if n > 0 && s[0] == '+' {
        1
    } else {
        0
    };
    let ghost body = unsigned_body(s@);
    assert(s@.skip(from as int) =~= body);
    let mut dot: usize = from;
    while dot < n && s[dot] != '.'
        invariant
            from <= dot <= n == s@.len(),
            forall|k: int| from <= k < dot ==> s@[k] != '.',
        decreases n - dot,
    {
        dot += 1;
    }
    proof {
        assert forall|k: int| 0 <= k < dot - from implies body[k] != '.' by {
            assert(body[k] == s@[from + k]);
        }
        crate::text::lemma_index_of(body, '.', dot - from);
        assert(s@.subrange(from as int, dot as int) =~= whole_part(body));
    }
    let after: usize = if dot < n {
        dot + 1
    } else {
        n
    };
    assert(s@.skip(after as int) =~= fraction_part(body));
    if dot == from && after == n {
        return None;
    }
    if !digits_only(s, after) {
        return None;
    }
    let whole = match read_digits(s, from, dot, 0xFFFF_FFFF_FFFF_FFFF) {
        Some(w) => w,
        None => {
            return None;
        },
    };
    let places = read_six_places(s, after);
    match whole.checked_mul(1_000_000) {
        Some(scaled) => scaled.checked_add(places),
        None => None,
    }
}

/// The character that writes the digit `d`.
pub open spec fn digit_char(d: nat) -> char {
    if d == 0 {
        '0'
    } else if d == 1 {
        '1'
    } else if d == 2 {
        '2'
    } else if d == 3 {
        '3'
    } else if d == 4 {
        '4'
    } else if d == 5 {
        '5'
    } else if d == 6 {
        '6'
    } else if d == 7 {
        '7'
    } else if d == 8 {
        '8'
    } else {
        '9'
    }
}

/// The decimal digits of `n`, without leading zeros.
pub open spec fn decimal_digits(n: nat) -> Seq<char>
    decreases n,
{
    if n < 10 {
        seq![digit_char(n)]
    } else {
        decimal_digits(n / 10).push(digit_char(n % 10))
    }
}

/// The decimal digits of `n`, with zeros in front up to `width` characters.
pub open spec fn zero_padded(n: nat, width: nat) -> Seq<char> {
    let digits = decimal_digits(n);
    if digits.len() >= width {
        digits
    } else {
        Seq::new((width - digits.len()) as nat, |i: int| '0') + digits
    }
}

/// The character that writes a digit.
fn digit_to_char(d: u64) -> (c: char)
    requires
        d < 10,
    ensures
        c == digit_char(d as nat),
{
    if d == 0 {
        '0'
    } else if d == 1 {
        '1'
    } else if d == 2 {
        '2'
    } else if d == 3 {
        '3'
    } else if d == 4 {
        '4'
    } else if d == 5 {
        '5'
    } else if d == 6 {
        '6'
    } else if d == 7 {
        '7'
    } else if d == 8 {
        '8'
    } else {
        '9'
    }
}

/// Appends the decimal digits of `n` to `out`.
pub fn push_decimal(out: &mut Vec<char>, n: u64)
    ensures
        final(out)@ == old(out)@ + decimal_digits(n as nat),
    decreases n,
{
    if n < 10 {
        out.push(digit_to_char(n));
        assert(out@ =~= old(out)@ + decimal_digits(n as nat));
    } else {
        push_decimal(out, n / 10);
        out.push(digit_to_char(n % 10));
        assert(out@ =~= old(out)@ + decimal_digits(n as nat));
    }
}

/// A number below ten to the `k` has at most `k` digits.
proof fn lemma_digit_count_bound(n: nat, k: nat)
    requires
        k >= 1,
        n < pow10(k),
    ensures
        decimal_digits(n).len() <= k,
    decreases n,
{
    if n >= 10 {
        if k == 1 {
            reveal_with_fuel(pow10, 2);
        } else {
            lemma_digit_count_bound(n / 10, (k - 1) as nat);
        }
    }
}

/// How many decimal digits `n` has.
fn digit_count(n: u64) -> (k: usize)
    ensures
        k == decimal_digits(n as nat).len(),
        1 <= k <= 20,
    decreases n,
{
    proof {
        reveal_with_fuel(pow10, 21);
        lemma_digit_count_bound(n as nat, 20);
    }
    if n < 10 {
        1
    } else {
        let k = digit_count(n / 10);
        k + 1
    }
}

/// Appends the decimal digits of `n` to `out`, with zeros in front up to
/// `width` characters.
pub fn push_padded(out: &mut Vec<char>, n: u64, width: usize)
    ensures
        final(out)@ == old(out)@ + zero_padded(n as nat, width as nat),
{
    let k = digit_count(n);
    let mut i: usize = k;
    let ghost before = out@;
    while i < width
        invariant
            k <= i || width <= k,
            i <= width || width <= k,
            i == k || k < width,
            out@ == before + Seq::new((i - k) as nat, |j: int| '0'),
        decreases width - i,
    {
        out.push('0');
        assert(out@ =~= before + Seq::new((i + 1 - k) as nat, |j: int| '0'));
        i += 1;
    }
    assert(out@ =~= before + Seq::new((i - k) as nat, |j: int| '0'));
    push_decimal(out, n);
    assert(out@ =~= before + zero_padded(n as nat, width as nat));
}

} // verus!
