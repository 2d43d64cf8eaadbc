use vstd::prelude::*;
use vstd::arithmetic::div_mod::{lemma_mod_add_multiples_vanish, lemma_mod_pos_bound, lemma_small_mod};

verus! {

/// The sum of the first `n` weights.
pub open spec fn prefix(ws: Seq<nat>, n: int) -> nat
    decreases n,
{
    if n <= 0 || n > ws.len() {
        0
    } else {
        prefix(ws, n - 1) + ws[n - 1]
    }
}

/// The sum of all weights: the length of one rotation.
pub open spec fn total(ws: Seq<nat>) -> nat {
    prefix(ws, ws.len() as int)
}

/// Slot `r` of the rotation belongs to candidate `i`: each candidate owns a
/// run of slots as long as its weight, in candidate order.
pub open spec fn owns(ws: Seq<nat>, i: int, r: int) -> bool {
    0 <= i < ws.len() && prefix(ws, i) <= r < prefix(ws, i + 1)
}

/// Request number `t` goes to candidate `i`.
pub open spec fn picks(ws: Seq<nat>, i: int, t: int) -> bool {
    owns(ws, i, t % (total(ws) as int))
}

/// Some candidate that is still in play has a positive weight.
pub open spec fn positive_live(weights: Seq<u8>, live: Seq<bool>) -> bool {
    exists|j: int| 0 <= j < weights.len() && live[j] && weights[j] > 0
}

/// The weights the rotation runs on. A candidate out of play counts nothing.
/// While some candidate in play weighs more than zero, the others count their
/// weight; otherwise each candidate in play counts one.
pub open spec fn effective(weights: Seq<u8>, live: Seq<bool>) -> Seq<nat> {
    if positive_live(weights, live) {
        Seq::new(weights.len(), |j: int| if live[j] { weights[j] as nat } else { 0nat })
    } else {
        Seq::new(weights.len(), |j: int| if live[j] { 1nat } else { 0nat })
    }
}

/// Every candidate is in play.
pub open spec fn all_live(n: nat) -> Seq<bool> {
    Seq::new(n, |j: int| true)
}

/// How many of the requests numbered `start .. start + n` go to candidate `i`.
pub open spec fn count_picks(ws: Seq<nat>, i: int, start: int, n: nat) -> nat
    decreases n,
{
    if n == 0 {
        0
    } else {
        count_picks(ws, i, start, (n - 1) as nat) + if picks(ws, i, start + n - 1) {
            1nat
        } else {
            0nat
        }
    }
}

proof fn lemma_prefix_mono(ws: Seq<nat>, a: int, b: int)
    requires
        0 <= a <= b <= ws.len(),
    ensures
        prefix(ws, a) <= prefix(ws, b),
    decreases b - a,
{
    if a < b {
        lemma_prefix_mono(ws, a, b - 1);
    }
}

/// A slot of the rotation has at most one owner.
pub(crate) proof fn lemma_owner_unique(ws: Seq<nat>, i: int, j: int, r: int)
    requires
        owns(ws, i, r),
        owns(ws, j, r),
    ensures
        i == j,
{
    if i < j {
        lemma_prefix_mono(ws, i + 1, j);
    } else if j < i {
        lemma_prefix_mono(ws, j + 1, i);
    }
}

proof fn lemma_count_front(ws: Seq<nat>, i: int, s: int, n: nat)
    ensures
        count_picks(ws, i, s, n + 1) == (if picks(ws, i, s) { 1nat } else { 0nat })
            + count_picks(ws, i, s + 1, n),
    decreases n,
{
    let b = if picks(ws, i, s) { 1nat } else { 0nat };
    if n > 0 {
        let m = (n - 1) as nat;
        lemma_count_front(ws, i, s, m);
        assert(count_picks(ws, i, s, n) == b + count_picks(ws, i, s + 1, m));
        assert(count_picks(ws, i, s + 1, n) == count_picks(ws, i, s + 1, m) + if picks(ws, i, s + 1 + n - 1) { 1nat } else { 0nat });
        assert(count_picks(ws, i, s, n + 1) == count_picks(ws, i, s, n) + if picks(ws, i, s + (n + 1) - 1) { 1nat } else { 0nat });
        assert(s + 1 + n - 1 == s + (n + 1) - 1);
    } else {
        assert(count_picks(ws, i, s, 1) == count_picks(ws, i, s, 0) + if picks(ws, i, s + 1 - 1) { 1nat } else { 0nat });
        assert(s + 1 - 1 == s);
    }
}

proof fn lemma_count_shift(ws: Seq<nat>, i: int, s: nat)
    requires
        total(ws) > 0,
    ensures
        count_picks(ws, i, s as int, total(ws)) == count_picks(ws, i, 0, total(ws)),
    decreases s,
{
    let t = total(ws);
    if s > 0 {
        let p = (s - 1) as int;
        lemma_count_shift(ws, i, (s - 1) as nat);
        lemma_count_front(ws, i, p, t);
        assert(count_picks(ws, i, p, t + 1) == count_picks(ws, i, p, t) + if picks(ws, i, p + t) {
            1nat
        } else {
            0nat
        });
        lemma_mod_add_multiples_vanish(p, t as int);
        assert(p + t == t + p);
    }
}

proof fn lemma_count_base(ws: Seq<nat>, i: int, m: nat)
    requires
        0 <= i < ws.len(),
        m <= total(ws),
    ensures
        count_picks(ws, i, 0, m) == if m <= prefix(ws, i) {
            0
        } else if m <= prefix(ws, i + 1) {
            m - prefix(ws, i)
        } else {
            ws[i] as int
        },
    decreases m,
{
    lemma_prefix_mono(ws, i, i + 1);
    lemma_prefix_mono(ws, i + 1, ws.len() as int);
    if m > 0 {
        lemma_count_base(ws, i, (m - 1) as nat);
        lemma_small_mod((m - 1) as nat, total(ws));
    }
}

/// Over any run of consecutive requests as long as the rotation, each
/// candidate is picked exactly as often as its weight.
pub proof fn lemma_window(ws: Seq<nat>, i: int, start: nat)
    requires
        0 <= i < ws.len(),
        total(ws) > 0,
    ensures
        count_picks(ws, i, start as int, total(ws)) == ws[i],
{
    lemma_count_shift(ws, i, start);
    lemma_count_base(ws, i, total(ws));
    lemma_prefix_mono(ws, i + 1, ws.len() as int);
}

/// Picks the candidate for request number `ticket` among those still in play
/// (`live`), by weighted rotation over the effective weights. Nothing is
/// picked exactly when no candidate is in play.
pub fn select(weights: &Vec<u8>, live: &Vec<bool>, ticket: u64) -> (r: Option<usize>)
    requires
        weights@.len() == live@.len(),
    ensures
        r.is_none() <==> (forall|j: int| 0 <= j < live@.len() ==> !live@[j]),
        r matches Some(i) ==> picks(effective(weights@, live@), i as int, ticket as int),
{
    let n = weights.len();
    let ghost wpos = Seq::new(n as nat, |j: int| if live@[j] { weights@[j] as nat } else { 0nat });
    let ghost wone = Seq::new(n as nat, |j: int| if live@[j] { 1nat } else { 0nat });
    let mut sum_weight: u128 = 0;
    let mut sum_live: u128 = 0;
    let mut i: usize = 0;
    while i < n
        invariant
            n == weights@.len(),
            n == live@.len(),
            i <= n,
            wpos == Seq::new(n as nat, |j: int| if live@[j] { weights@[j] as nat } else { 0nat }),
            wone == Seq::new(n as nat, |j: int| if live@[j] { 1nat } else { 0nat }),
            sum_weight == prefix(wpos, i as int),
            sum_live == prefix(wone, i as int),
            sum_weight <= 255 * i,
            sum_live <= i,
            (sum_weight > 0) <==> (exists|j: int| 0 <= j < i && live@[j] && weights@[j] > 0),
            (sum_live > 0) <==> (exists|j: int| 0 <= j < i && live@[j]),
        decreases n - i,
    {
        if live[i] {
            sum_weight = sum_weight + weights[i] as u128;
            sum_live = sum_live + 1;
        }
        i = i + 1;
        assert(live@[i - 1] ==> (weights@[i - 1] > 0 ==> (exists|j: int| 0 <= j < i && live@[j] && weights@[j] > 0)));
        assert(live@[i - 1] ==> (exists|j: int| 0 <= j < i && live@[j]));
    }
    if sum_live == 0 {
        return None;
    }
    let use_weight = sum_weight > 0;
    let tot = if use_weight { sum_weight } else { sum_live };
    let ghost eff = effective(weights@, live@);
    assert(eff == if use_weight { wpos } else { wone });
    assert(tot == total(eff));
    let slot = ticket as u128 % tot;
    let mut acc: u128 = 0;
    let mut k: usize = 0;
    while k < n
        invariant
            n == weights@.len(),
            n == live@.len(),
            k <= n,
            eff == effective(weights@, live@),
            eff == if use_weight { wpos } else { wone },
            wpos == Seq::new(n as nat, |j: int| if live@[j] { weights@[j] as nat } else { 0nat }),
            wone == Seq::new(n as nat, |j: int| if live@[j] { 1nat } else { 0nat }),
            tot == total(eff),
            tot <= 255 * n,
            acc == prefix(eff, k as int),
            acc <= slot,
            slot < tot,
            slot == ticket as int % total(eff) as int,
        decreases n - k,
    {
        let e: u128 = if live[k] {
            if use_weight {
                weights[k] as u128
            } else {
                1
            }
        } else {
            0
        };
        assert(e == eff[k as int]);
        assert(prefix(eff, k as int + 1) == acc + e);
        if slot < acc + e {
            return Some(k);
        }
        acc = acc + e;
        k = k + 1;
    }
    None
}

} // verus!

verus! {

/// With every candidate in play and some weight positive, any run of
/// consecutive requests as long as the sum of the weights sends to each
/// candidate exactly as many requests as its weight: the share of a candidate
/// is its weight over the sum of the weights.
pub proof fn weighted_fairness(weights: Seq<u8>, i: int, start: nat)
    requires
        0 <= i < weights.len(),
        exists|j: int| 0 <= j < weights.len() && weights[j] > 0,
    ensures
        count_picks(effective(weights, all_live(weights.len())), i, start as int,
            total(effective(weights, all_live(weights.len())))) == weights[i] as nat,
{
    let live = all_live(weights.len());
    let ws = effective(weights, live);
    let j = choose|j: int| 0 <= j < weights.len() && weights[j] > 0;
    assert(live[j] && weights[j] > 0);
    assert(positive_live(weights, live));
    lemma_prefix_mono(ws, j + 1, ws.len() as int);
    lemma_prefix_mono(ws, 0, j);
    assert(total(ws) > 0);
    lemma_window(ws, i, start);
}

} // verus!

verus! {

/// Only a candidate in play owns a slot.
pub proof fn lemma_owned_live(weights: Seq<u8>, live: Seq<bool>, i: int, r: int)
    requires
        weights.len() == live.len(),
        owns(effective(weights, live), i, r),
    ensures
        live[i],
{
    let ws = effective(weights, live);
    assert(prefix(ws, i + 1) == prefix(ws, i) + ws[i]);
}

} // verus!
