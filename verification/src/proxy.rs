use crate::error::{ErrorKind, M3u8Error};
use crate::number::{parse_u32, parse_u32_spec};
use crate::text::{rows, split, split_chars, string_from_chars, to_chars, trim, trim_chars};
use vstd::prelude::*;

verus! {

/// A proxy endpoint and its share of the load.
#[derive(Debug, Clone)]
pub struct ProxyInfo {
    pub url: String,
    pub weight: u32,
}

/// A proxy endpoint and its weight, as plain values.
pub struct ProxyEntry {
    pub url: Seq<char>,
    pub weight: u32,
}

/// The sum of the weights of the first `n` entries.
pub open spec fn weight_sum(entries: Seq<ProxyEntry>, n: int) -> int
    decreases n,
{
    if n <= 0 {
        0
    } else {
        weight_sum(entries, n - 1) + entries[n - 1].weight
    }
}

/// Whether the draw `draw` falls to entry `i`: it lies in the entry's stretch
/// of the line on which the weights are laid end to end.
pub open spec fn falls_to(entries: Seq<ProxyEntry>, draw: int, i: int) -> bool {
    &&& 0 <= i < entries.len()
    &&& weight_sum(entries, i) <= draw < weight_sum(entries, i + 1)
}

/// The sum of the weights grows with the number of entries.
pub proof fn lemma_weight_sum_grows(entries: Seq<ProxyEntry>, m: int, n: int)
    requires
        0 <= m <= n,
    ensures
        weight_sum(entries, m) <= weight_sum(entries, n),
    decreases n - m,
{
    if m < n {
        lemma_weight_sum_grows(entries, m, n - 1);
    }
}

/// A draw falls to at most one entry.
pub proof fn lemma_falls_to_one(entries: Seq<ProxyEntry>, draw: int, i: int, j: int)
    requires
        falls_to(entries, draw, i),
        falls_to(entries, draw, j),
    ensures
        i == j,
{
    if i < j {
        lemma_weight_sum_grows(entries, i + 1, j);
    } else if j < i {
        lemma_weight_sum_grows(entries, j + 1, i);
    }
}

/// Every draw below the sum of all weights falls to an entry, and that entry
/// has a weight above 0.
pub proof fn lemma_every_draw_falls(entries: Seq<ProxyEntry>, draw: int, n: int)
    requires
        0 <= n <= entries.len(),
        0 <= draw < weight_sum(entries, n),
    ensures
        exists|i: int| 0 <= i < n && #[trigger] falls_to(entries, draw, i) && entries[i].weight > 0,
    decreases n,
{
    if weight_sum(entries, n - 1) <= draw {
        assert(falls_to(entries, draw, n - 1));
    } else {
        lemma_every_draw_falls(entries, draw, n - 1);
    }
}

/// The views of a sequence of proxies.
pub open spec fn proxy_views(s: Seq<ProxyInfo>) -> Seq<ProxyEntry> {
    s.map_values(|p: ProxyInfo| ProxyEntry { url: p.url@, weight: p.weight })
}

/// What one argument of the form `weight,endpoint` says: the text is trimmed
/// and must have exactly one comma, with a `u32` above 0 before it.
pub open spec fn parse_proxy_arg(arg: Seq<char>) -> Option<ProxyEntry> {
    let parts = split(trim(arg), ',');
    if parts.len() == 2 {
        match parse_u32_spec(parts[0]) {
            Some(weight) => if weight > 0 {
                Some(ProxyEntry { url: parts[1], weight })
            } else {
                None
            },
            None => None,
        }
    } else {
        None
    }
}

/// The entries that the first `n` arguments give, or the error at the first
/// argument that is malformed or takes the sum of the weights beyond `u32`.
pub open spec fn proxy_args_upto(args: Seq<Seq<char>>, n: int) -> Result<Seq<ProxyEntry>, ErrorKind>
    decreases n,
{
    if n <= 0 {
        Ok(Seq::empty())
    } else {
        match proxy_args_upto(args, n - 1) {
            Err(k) => Err(k),
            Ok(entries) => match parse_proxy_arg(args[n - 1]) {
                Some(entry) => if weight_sum(entries, entries.len() as int) + entry.weight
                    <= u32::MAX {
                    Ok(entries.push(entry))
                } else {
                    Err(ErrorKind::ConfigError)
                },
                None => Err(ErrorKind::ConfigError),
            },
        }
    }
}

/// The proxy table that the arguments give: a configuration error where one
/// of them is refused, an empty error where there is none.
pub open spec fn proxy_args_outcome(args: Seq<Seq<char>>) -> Result<Seq<ProxyEntry>, ErrorKind> {
    match proxy_args_upto(args, args.len() as int) {
        Err(k) => Err(k),
        Ok(entries) => if entries.len() == 0 {
            Err(ErrorKind::EmptyError)
        } else {
            Ok(entries)
        },
    }
}

/// A failure to read the arguments stays.
pub proof fn lemma_proxy_args_failure_stays(args: Seq<Seq<char>>, m: int, n: int)
    requires
        0 <= m <= n,
        proxy_args_upto(args, m) is Err,
    ensures
        proxy_args_upto(args, n) == proxy_args_upto(args, m),
    decreases n - m,
{
    if m < n {
        lemma_proxy_args_failure_stays(args, m, n - 1);
    }
}

/// Those of the first `n` entries of which `works` says that they work, in
/// order. An entry of which `works` says nothing does not count as working.
pub open spec fn working_entries(entries: Seq<ProxyEntry>, works: Seq<bool>, n: int) -> Seq<
    ProxyEntry,
>
    decreases n,
{
    if n <= 0 {
        Seq::empty()
    } else if 0 <= n - 1 < works.len() && works[n - 1] {
        working_entries(entries, works, n - 1).push(entries[n - 1])
    } else {
        working_entries(entries, works, n - 1)
    }
}

/// The working entries weigh no more than all entries together.
pub proof fn lemma_working_weighs_less(entries: Seq<ProxyEntry>, works: Seq<bool>, n: int)
    requires
        0 <= n <= entries.len(),
    ensures
        weight_sum(
            working_entries(entries, works, n),
            working_entries(entries, works, n).len() as int,
        ) <= weight_sum(entries, n),
    decreases n,
{
    if n > 0 {
        lemma_working_weighs_less(entries, works, n - 1);
        let before = working_entries(entries, works, n - 1);
        let now = working_entries(entries, works, n);
        if 0 <= n - 1 < works.len() && works[n - 1] {
            lemma_weight_sum_same(before, now, before.len() as int);
        }
    }
}

/// Draws a number below `bound` with `rand::random_range`, which takes it
/// from the thread's generator. Nothing is said of which number comes, only
/// that it lies in the range; the range must not be empty, or the call
/// panics.
#[verifier::external_body]
pub(crate) fn random_below(bound: u32) -> (r: u32)
    requires
        bound > 0,
    ensures
        r < bound,
{
    rand::random_range(0..bound)
}

/// Reads one argument of the form `weight,endpoint`.
pub fn read_proxy_arg(arg: &str) -> (r: Option<ProxyInfo>)
    ensures
        match r {
            Some(p) => parse_proxy_arg(arg@) == Some(ProxyEntry { url: p.url@, weight: p.weight }),
            None => parse_proxy_arg(arg@) is None,
        },
{
    let chars = to_chars(arg);
    let trimmed = trim_chars(chars.as_slice());
    let parts = split_chars(trimmed.as_slice(), ',');
    assert(rows(parts@).len() == parts@.len());
    if parts.len() != 2 {
        return None;
    }
    assert(rows(parts@)[0] == parts@[0]@);
    assert(rows(parts@)[1] == parts@[1]@);
    match parse_u32(parts[0].as_slice()) {
        Some(weight) => if weight > 0 {
            Some(ProxyInfo { url: string_from_chars(parts[1].as_slice()), weight })
        } else {
            None
        },
        None => None,
    }
}

/// A table of proxies among which requests are spread by weight.
#[derive(Debug)]
pub struct ProxyConfig {
    proxies: Vec<ProxyInfo>,
    total_weight: u32,
}

impl ProxyConfig {
    #[verifier::type_invariant]
    spec fn well_formed(self) -> bool {
        &&& self.total_weight == weight_sum(proxy_views(self.proxies@), self.proxies@.len() as int)
        &&& forall|i: int| 0 <= i < self.proxies@.len() ==> (#[trigger] self.proxies@[i]).weight > 0
    }

    /// The entries of the table, in the order in which they were added.
    pub closed spec fn entries(&self) -> Seq<ProxyEntry> {
        proxy_views(self.proxies@)
    }

    /// The sum of all weights.
    pub open spec fn total(&self) -> int {
        weight_sum(self.entries(), self.entries().len() as int)
    }

    /// The table without entries.
    pub fn new() -> (c: Self)
        ensures
            c.entries().len() == 0,
    {
        Self { proxies: Vec::new(), total_weight: 0 }
    }

    /// Adds an entry at the end and tells whether it did: an entry with the
    /// weight 0, or one that takes the sum of the weights beyond `u32`, is
    /// refused and changes nothing.
    pub fn add_proxy(&mut self, url: String, weight: u32) -> (added: bool)
        ensures
            added == (weight > 0 && old(self).total() + weight <= u32::MAX),
            added ==> final(self).entries() == old(self).entries().push(
                ProxyEntry { url: url@, weight },
            ),
            !added ==> final(self).entries() == old(self).entries(),
    {
        proof {
            use_type_invariant(&*self);
        }
        if weight == 0 {
            return false;
        }
        match self.total_weight.checked_add(weight) {
            Some(total) => {
                let ghost before = self.proxies@;
                let entry = ProxyInfo { url, weight };
                let mut taken = Self::new();
                proof {
                    use_type_invariant(&taken);
                }
                core::mem::swap(self, &mut taken);
                let Self { proxies: mut proxies, total_weight: _ } = taken;
                proxies.push(entry);
                proof {
                    let after = proxy_views(proxies@);
                    assert(after =~= proxy_views(before).push(ProxyEntry { url: url@, weight }));
                    lemma_weight_sum_same(proxy_views(before), after, before.len() as int);
                }
                *self = Self { proxies, total_weight: total };
                true
            },
            None => false,
        }
    }

    /// Reads a table from arguments of the form `weight,endpoint`.
    pub fn from_args(proxy_args: &[String]) -> (r: Result<Self, M3u8Error>)
        ensures
            match r {
                Ok(c) => proxy_args_outcome(crate::pattern::texts(proxy_args@)) == Ok::<
                    Seq<ProxyEntry>,
                    ErrorKind,
                >(c.entries()),
                Err(e) => proxy_args_outcome(crate::pattern::texts(proxy_args@)) == Err::<
                    Seq<ProxyEntry>,
                    ErrorKind,
                >(e.kind()),
            },
    {
        let ghost args = crate::pattern::texts(proxy_args@);
        let mut config = Self::new();
        let mut i: usize = 0;
        assert(config.entries() =~= Seq::empty());
        while i < proxy_args.len()
            invariant
                i <= proxy_args@.len(),
                args == crate::pattern::texts(proxy_args@),
                proxy_args_upto(args, i as int) == Ok::<Seq<ProxyEntry>, ErrorKind>(
                    config.entries(),
                ),
            decreases proxy_args@.len() - i,
        {
            assert(args[i as int] == proxy_args@[i as int]@);
            let added = match read_proxy_arg(proxy_args[i].as_str()) {
                Some(p) => config.add_proxy(p.url, p.weight),
                None => false,
            };
            if !added {
                proof {
                    lemma_proxy_args_failure_stays(args, i + 1, args.len() as int);
                }
                let mut text: Vec<char> = Vec::new();
                crate::text::push_str(&mut text, "代理格式错误: ");
                crate::text::push_str(&mut text, proxy_args[i].as_str());
                crate::text::push_str(&mut text, "，应为 'weight,proxy_url'");
                return Err(M3u8Error::ConfigError(string_from_chars(text.as_slice())));
            }
            i += 1;
        }
        if config.len() == 0 {
            return Err(M3u8Error::EmptyError("未找到有效的代理配置".to_owned()));
        }
        Ok(config)
    }

    /// The endpoint to which the draw `draw` falls: none where the draw is
    /// not below the sum of the weights.
    pub fn select_by_draw(&self, draw: u32) -> (r: Option<&str>)
        ensures
            match r {
                Some(url) => exists|i: int| #[trigger]
                    falls_to(self.entries(), draw as int, i) && url@ == self.entries()[i].url,
                None => draw >= self.total(),
            },
    {
        proof {
            use_type_invariant(self);
        }
        let ghost entries = self.entries();
        let n = self.proxies.len();
        let mut remaining: u32 = draw;
        let mut i: usize = 0;
        while i < n
            invariant
                i <= n == self.proxies@.len(),
                entries == proxy_views(self.proxies@),
                remaining == draw - weight_sum(entries, i as int),
            decreases n - i,
        {
            let proxy = &self.proxies[i];
            assert(entries[i as int].weight == proxy.weight);
            assert(entries[i as int].url == proxy.url@);
            if remaining < proxy.weight {
                assert(weight_sum(entries, i + 1) == weight_sum(entries, i as int)
                    + entries[i as int].weight);
                let url = proxy.url.as_str();
                assert(falls_to(self.entries(), draw as int, i as int) && url@
                    == self.entries()[i as int].url);
                return Some(url);
            }
            remaining -= proxy.weight;
            i += 1;
        }
        None
    }

    /// An endpoint, drawn at random with a chance in proportion to its
    /// weight; none where the table is empty.
    pub fn get_random_proxy(&self) -> (r: Option<&str>)
        ensures
            r is Some <==> self.entries().len() > 0,
            r matches Some(url) ==> exists|i: int|
                0 <= i < self.entries().len() && url@ == (#[trigger] self.entries()[i]).url
                    && self.entries()[i].weight > 0,
    {
        proof {
            use_type_invariant(self);
            let entries = self.entries();
            if entries.len() > 0 {
                lemma_weight_sum_grows(entries, 1, entries.len() as int);
                assert(weight_sum(entries, 1) == weight_sum(entries, 0) + entries[0].weight);
                assert(entries[0].weight == self.proxies@[0].weight);
            }
        }
        if self.proxies.len() == 0 {
            return None;
        }
        let draw = random_below(self.total_weight);
        let r = self.select_by_draw(draw);
        proof {
            let i = choose|i: int| #[trigger]
                falls_to(self.entries(), draw as int, i) && r->0@ == self.entries()[i].url;
            assert(weight_sum(self.entries(), i + 1) == weight_sum(self.entries(), i)
                + self.entries()[i].weight);
        }
        r
    }

    /// How many entries the table has.
    pub fn len(&self) -> (n: usize)
        ensures
            n == self.entries().len(),
    {
        self.proxies.len()
    }

    /// The endpoint of entry `i`; none where there is no such entry.
    pub fn endpoint(&self, i: usize) -> (r: Option<&str>)
        ensures
            match r {
                Some(url) => i < self.entries().len() && url@ == self.entries()[i as int].url,
                None => i >= self.entries().len(),
            },
    {
        if i < self.proxies.len() {
            assert(self.entries()[i as int].url == self.proxies@[i as int].url@);
            Some(self.proxies[i].url.as_str())
        } else {
            None
        }
    }

    /// The table of those entries of which `works` says, by their place, that
    /// they work, in their order. Where none is left, that is an empty
    /// error.
    pub fn keep_working(&self, works: &Vec<bool>) -> (r: Result<ProxyConfig, M3u8Error>)
        ensures
            match r {
                Ok(c) => c.entries() == working_entries(
                    self.entries(),
                    works@,
                    self.entries().len() as int,
                ) && c.entries().len() > 0,
                Err(e) => e.kind() == ErrorKind::EmptyError && working_entries(
                    self.entries(),
                    works@,
                    self.entries().len() as int,
                ).len() == 0,
            },
    {
        proof {
            use_type_invariant(self);
        }
        let ghost entries = self.entries();
        let n = self.proxies.len();
        let mut kept = Self::new();
        let mut i: usize = 0;
        assert(kept.entries() =~= Seq::empty());
        while i < n
            invariant
                i <= n == self.proxies@.len(),
                entries == proxy_views(self.proxies@),
                weight_sum(entries, n as int) <= u32::MAX,
                forall|k: int| 0 <= k < n ==> (#[trigger] self.proxies@[k]).weight > 0,
                kept.entries() == working_entries(entries, works@, i as int),
            decreases n - i,
        {
            if i < works.len() && works[i] {
                let proxy = &self.proxies[i];
                proof {
                    assert(entries[i as int].weight == proxy.weight);
                    assert(entries[i as int].url == proxy.url@);
                    lemma_working_weighs_less(entries, works@, i as int);
                    lemma_weight_sum_grows(entries, i + 1, n as int);
                }
                let added = kept.add_proxy(proxy.url.clone(), proxy.weight);
                assert(added);
            }
            i += 1;
        }
        if kept.len() == 0 {
            return Err(M3u8Error::EmptyError("未找到有效的代理配置".to_owned()));
        }
        Ok(kept)
    }
}

/// Two lists of entries that agree on their first `n` have the same sum of
/// weights there.
pub proof fn lemma_weight_sum_same(a: Seq<ProxyEntry>, b: Seq<ProxyEntry>, n: int)
    requires
        n <= a.len(),
        n <= b.len(),
        forall|i: int| 0 <= i < n ==> a[i] == b[i],
    ensures
        weight_sum(a, n) == weight_sum(b, n),
    decreases n,
{
    if n > 0 {
        lemma_weight_sum_same(a, b, n - 1);
    }
}

} // verus!
