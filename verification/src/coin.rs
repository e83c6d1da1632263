//! Balances: coins, and the comparison of two balance sets without regard
//! to the order in which a chain lists them.

use vstd::multiset::*;
use vstd::prelude::*;
use vstd::seq_lib::*;

verus! {

/// An amount of one denomination. The amount is kept as the chain prints
/// it, a decimal string: it is only ever compared.
#[derive(Clone, Debug, PartialEq, Eq)]
pub struct Coin {
    pub denom: String,
    pub amount: String,
}

pub struct CoinView {
    pub denom: Seq<char>,
    pub amount: Seq<char>,
}

impl View for Coin {
    type V = CoinView;

    open spec fn view(&self) -> CoinView {
        CoinView { denom: self.denom@, amount: self.amount@ }
    }
}

/// The coins of a balance list, each by its view.
pub open spec fn coins_view(coins: Seq<Coin>) -> Seq<CoinView> {
    coins.map_values(|c: Coin| c@)
}

/// Two balance lists hold the same coins, each as often in the one as in
/// the other, in whatever order.
pub open spec fn same_balances(a: Seq<CoinView>, b: Seq<CoinView>) -> bool {
    a.to_multiset() == b.to_multiset()
}

impl Coin {
    /// Same denomination and same amount.
    pub fn same_as(&self, other: &Coin) -> (r: bool)
        ensures
            r == (self@ == other@),
    {
        self.denom == other.denom && self.amount == other.amount
    }

    /// A copy of this coin.
    pub fn duplicate(&self) -> (r: Coin)
        ensures
            r@ == self@,
    {
        Coin { denom: self.denom.clone(), amount: self.amount.clone() }
    }
}

/// How often `coin` occurs in `coins`.
pub fn occurrences(coins: &Vec<Coin>, coin: &Coin) -> (n: usize)
    ensures
        n == coins_view(coins@).to_multiset().count(coin@),
{
    let ghost all = coins_view(coins@);
    let mut n: usize = 0;
    let mut i: usize = 0;
    proof {
        let none = all.subrange(0, 0);
        none.to_multiset_ensures();
        lemma_multiset_empty_len(none.to_multiset());
        axiom_multiset_empty(coin@);
    }
    while i < coins.len()
        invariant
            i <= coins.len(),
            n <= i,
            all == coins_view(coins@),
            n == all.subrange(0, i as int).to_multiset().count(coin@),
        decreases coins.len() - i,
    {
        proof {
            let seen = all.subrange(0, i as int);
            assert(all.subrange(0, i + 1) =~= seen.push(all[i as int]));
            to_multiset_build(seen, all[i as int]);
            assert(all[i as int] == coins[i as int]@);
        }
        if coins[i].same_as(coin) {
            n = n + 1;
        }
        i = i + 1;
    }
    proof {
        assert(all.subrange(0, i as int) =~= all);
    }
    n
}

/// Whether two balance lists are equal as multisets of coins.
pub fn same_coins(a: &Vec<Coin>, b: &Vec<Coin>) -> (r: bool)
    ensures
        r == same_balances(coins_view(a@), coins_view(b@)),
{
    let ghost va = coins_view(a@);
    let ghost vb = coins_view(b@);
    proof {
        va.to_multiset_ensures();
        vb.to_multiset_ensures();
    }
    if a.len() != b.len() {
        return false;
    }
    let mut i: usize = 0;
    while i < a.len()
        invariant
            i <= a.len(),
            va == coins_view(a@),
            vb == coins_view(b@),
            forall|k: int|
                0 <= k < i ==> va.to_multiset().count(#[trigger] va[k]) == vb.to_multiset().count(
                    va[k],
                ),
        decreases a.len() - i,
    {
        assert(va[i as int] == a[i as int]@);
        if occurrences(a, &a[i]) != occurrences(b, &a[i]) {
            return false;
        }
        i = i + 1;
    }
    proof {
        lemma_counts_decide(va, vb);
    }
    true
}

/// Two sequences of one length are equal as multisets as soon as every
/// item of the first occurs as often in the second as in the first.
pub proof fn lemma_counts_decide<A>(a: Seq<A>, b: Seq<A>)
    requires
        a.len() == b.len(),
        forall|k: int|
            0 <= k < a.len() ==> a.to_multiset().count(#[trigger] a[k]) == b.to_multiset().count(
                a[k],
            ),
    ensures
        a.to_multiset() =~= b.to_multiset(),
{
    let ma = a.to_multiset();
    let mb = b.to_multiset();
    a.to_multiset_ensures();
    b.to_multiset_ensures();
    assert forall|v: A| ma.count(v) <= mb.count(v) by {
        if ma.count(v) > 0 {
            assert(a.contains(v));
            let k = choose|k: int| 0 <= k < a.len() && a[k] == v;
            assert(ma.count(a[k]) == mb.count(a[k]));
        }
    }
    assert(ma.subset_of(mb));
    let rest = mb.sub(ma);
    axiom_len_sub(mb, ma);
    lemma_multiset_empty_len(rest);
    assert forall|v: A| ma.count(v) == mb.count(v) by {
        axiom_multiset_sub(mb, ma, v);
        axiom_multiset_empty(v);
        assert(rest.count(v) == 0);
    }
}

} // verus!
