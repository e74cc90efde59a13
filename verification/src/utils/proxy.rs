use crate::error::{ErrorKind, M3u8Error};
use crate::proxy::{
    lemma_weight_sum_grows, lemma_weight_sum_same, weight_sum, ProxyConfig, ProxyEntry,
};
use vstd::prelude::*;

verus! {

/// The endpoints and weights that a list of pairs holds.
pub open spec fn pair_views(list: Seq<(String, u32)>) -> Seq<ProxyEntry> {
    list.map_values(|p: (String, u32)| ProxyEntry { url: p.0@, weight: p.1 })
}

/// Those of the first `n` entries that have a weight above 0, in order.
pub open spec fn usable_entries(list: Seq<ProxyEntry>, n: int) -> Seq<ProxyEntry>
    decreases n,
{
    if n <= 0 {
        Seq::empty()
    } else if list[n - 1].weight > 0 {
        usable_entries(list, n - 1).push(list[n - 1])
    } else {
        usable_entries(list, n - 1)
    }
}

/// The proxy table that a list of endpoints and weights gives: the entries
/// with a weight above 0. Where none is left the list is an empty error, and
/// where the weights add up beyond `u32` a configuration error.
pub open spec fn proxies_outcome(list: Seq<ProxyEntry>) -> Result<Seq<ProxyEntry>, ErrorKind> {
    let usable = usable_entries(list, list.len() as int);
    if weight_sum(usable, usable.len() as int) > u32::MAX {
        Err(ErrorKind::ConfigError)
    } else if usable.len() == 0 {
        Err(ErrorKind::EmptyError)
    } else {
        Ok(usable)
    }
}

/// The usable entries of a shorter part of the list stand at the front of
/// those of a longer part, so their weights add up to no more.
pub proof fn lemma_usable_grows(list: Seq<ProxyEntry>, m: int, n: int)
    requires
        0 <= m <= n,
    ensures
        usable_entries(list, m).len() <= usable_entries(list, n).len(),
        forall|i: int|
            0 <= i < usable_entries(list, m).len() ==> usable_entries(list, m)[i]
                == usable_entries(list, n)[i],
        weight_sum(usable_entries(list, m), usable_entries(list, m).len() as int) <= weight_sum(
            usable_entries(list, n),
            usable_entries(list, n).len() as int,
        ),
    decreases n - m,
{
    if m < n {
        lemma_usable_grows(list, m, n - 1);
        let a = usable_entries(list, m);
        let b = usable_entries(list, n - 1);
        let c = usable_entries(list, n);
        assert forall|i: int| 0 <= i < a.len() implies a[i] == c[i] by {
            assert(a[i] == b[i]);
        }
        lemma_weight_sum_same(a, c, a.len() as int);
        lemma_weight_sum_grows(c, a.len() as int, c.len() as int);
    }
}

/// The proxies among which requests are spread by weight.
#[derive(Debug)]
pub struct Proxies {
    table: ProxyConfig,
}

impl Proxies {
    /// The entries of the table.
    pub closed spec fn entries(&self) -> Seq<ProxyEntry> {
        self.table.entries()
    }

    /// Builds the table from endpoints and weights. Entries with the weight 0
    /// are left out.
    pub fn parse(proxies: &Vec<(String, u32)>) -> (r: Result<Self, M3u8Error>)
        ensures
            match r {
                Ok(p) => proxies_outcome(pair_views(proxies@)) == Ok::<Seq<ProxyEntry>, ErrorKind>(
                    p.entries(),
                ),
                Err(e) => proxies_outcome(pair_views(proxies@)) == Err::<
                    Seq<ProxyEntry>,
                    ErrorKind,
                >(e.kind()),
            },
    {
        let ghost list = pair_views(proxies@);
        let mut table = ProxyConfig::new();
        let mut i: usize = 0;
        assert(table.entries() =~= Seq::empty());
        while i < proxies.len()
            invariant
                i <= proxies@.len(),
                list == pair_views(proxies@),
                table.entries() == usable_entries(list, i as int),
                table.total() <= u32::MAX,
            decreases proxies@.len() - i,
        {
            assert(list[i as int] == ProxyEntry {
                url: proxies@[i as int].0@,
                weight: proxies@[i as int].1,
            });
            let weight = proxies[i].1;
            if weight > 0 {
                let added = table.add_proxy(proxies[i].0.clone(), weight);
                if !added {
                    proof {
                        let usable = usable_entries(list, i + 1);
                        let before = usable_entries(list, i as int);
                        lemma_weight_sum_same(before, usable, before.len() as int);
                        lemma_usable_grows(list, i + 1, list.len() as int);
                    }
                    return Err(M3u8Error::ConfigError("代理权重之和超出范围".to_owned()));
                }
                proof {
                    let usable = usable_entries(list, i + 1);
                    let before = usable_entries(list, i as int);
                    lemma_weight_sum_same(before, usable, before.len() as int);
                }
            }
            i += 1;
        }
        if table.len() == 0 {
            return Err(M3u8Error::EmptyError("未找到有效的代理配置".to_owned()));
        }
        Ok(Self { table })
    }

    /// How many entries the table has.
    pub fn len(&self) -> (n: usize)
        ensures
            n == self.entries().len(),
            n > 0,
    {
        let n = self.table.len();
        proof {
            use_type_invariant(self);
        }
        n
    }

    #[verifier::type_invariant]
    spec fn not_empty(self) -> bool {
        self.table.entries().len() > 0
    }

    /// The endpoint to which the draw `draw` falls: none where the draw is
    /// not below the sum of the weights.
    pub fn select_by_draw(&self, draw: u32) -> (r: Option<&str>)
        ensures
            match r {
                Some(url) => exists|i: int| #[trigger]
                    crate::proxy::falls_to(self.entries(), draw as int, i) && url@
                        == self.entries()[i].url,
                None => draw >= weight_sum(self.entries(), self.entries().len() as int),
            },
    {
        let r = self.table.select_by_draw(draw);
        proof {
            if r is Some {
                let i = choose|i: int| #[trigger]
                    crate::proxy::falls_to(self.table.entries(), draw as int, i) && r->0@
                        == self.table.entries()[i].url;
                assert(crate::proxy::falls_to(self.entries(), draw as int, i) && r->0@
                    == self.entries()[i].url);
            }
        }
        r
    }

    /// An endpoint, drawn at random with a chance in proportion to its
    /// weight.
    pub fn select(&self) -> (r: Option<&str>)
        ensures
            r matches Some(url) && exists|i: int|
                0 <= i < self.entries().len() && url@ == (#[trigger] self.entries()[i]).url
                    && self.entries()[i].weight > 0,
    {
        proof {
            use_type_invariant(self);
        }
        let r = self.table.get_random_proxy();
        proof {
            let i = choose|i: int|
                0 <= i < self.table.entries().len() && r->0@ == (
                #[trigger] self.table.entries()[i]).url && self.table.entries()[i].weight > 0;
            assert(r->0@ == self.entries()[i].url && self.entries()[i].weight > 0);
        }
        r
    }
}

} // verus!
