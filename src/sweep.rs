use vstd::prelude::*;

use crate::types::Config;

verus! {

/// The probe text `name=value`.
pub open spec fn pair_text(name: Seq<char>, value: Seq<char>) -> Seq<char> {
    name + seq!['='] + value
}

/// Round `r` of the sweep: for each name, in order, that has more than `r` values,
/// the name paired with its value at position `r`.
pub open spec fn round_of(cs: Seq<(Seq<char>, Seq<Seq<char>>)>, r: int) -> Seq<Seq<char>>
    decreases cs.len(),
{
    if cs.len() == 0 {
        Seq::empty()
    } else {
        let prev = round_of(cs.drop_last(), r);
        let last = cs.last();
        if 0 <= r < last.1.len() { prev.push(pair_text(last.0, last.1[r])) } else { prev }
    }
}

/// The length of the longest value list.
pub open spec fn max_len(cs: Seq<(Seq<char>, Seq<Seq<char>>)>) -> nat
    decreases cs.len(),
{
    if cs.len() == 0 {
        0
    } else {
        let m = max_len(cs.drop_last());
        if m < cs.last().1.len() { cs.last().1.len() } else { m }
    }
}

/// How many values are supplied in all.
pub open spec fn total_values(cs: Seq<(Seq<char>, Seq<Seq<char>>)>) -> nat
    decreases cs.len(),
{
    if cs.len() == 0 { 0 } else { total_values(cs.drop_last()) + cs.last().1.len() }
}

/// How many probe texts the first `n` rounds hold in all.
pub open spec fn probes_in(cs: Seq<(Seq<char>, Seq<Seq<char>>)>, n: nat) -> nat
    decreases n,
{
    if n == 0 { 0 } else { probes_in(cs, (n - 1) as nat) + round_of(cs, n - 1).len() }
}

/// Value `j` of name `i` is probed in round `j`, one of the rounds that the sweep runs.
pub open spec fn probed_in_round(cs: Seq<(Seq<char>, Seq<Seq<char>>)>, i: int, j: int) -> bool {
    j < max_len(cs) && round_of(cs, j).contains(pair_text(cs[i].0, cs[i].1[j]))
}

proof fn lemma_probes_split(cs: Seq<(Seq<char>, Seq<Seq<char>>)>, n: nat)
    requires
        cs.len() > 0,
    ensures
        probes_in(cs, n) == probes_in(cs.drop_last(), n) + if n < cs.last().1.len() { n } else { cs.last().1.len() },
    decreases n,
{
    if n > 0 {
        lemma_probes_split(cs, (n - 1) as nat);
    }
}

proof fn lemma_probes_total(cs: Seq<(Seq<char>, Seq<Seq<char>>)>, n: nat)
    requires
        n >= max_len(cs),
    ensures
        probes_in(cs, n) == total_values(cs),
    decreases cs.len(),
{
    if cs.len() == 0 {
        lemma_probes_empty(cs, n);
    } else {
        lemma_probes_split(cs, n);
        lemma_probes_total(cs.drop_last(), n);
    }
}

proof fn lemma_probes_empty(cs: Seq<(Seq<char>, Seq<Seq<char>>)>, n: nat)
    requires
        cs.len() == 0,
    ensures
        probes_in(cs, n) == 0,
    decreases n,
{
    if n > 0 {
        lemma_probes_empty(cs, (n - 1) as nat);
    }
}

proof fn lemma_round_empty_beyond(cs: Seq<(Seq<char>, Seq<Seq<char>>)>, r: int)
    requires
        r >= max_len(cs),
    ensures
        round_of(cs, r).len() == 0,
    decreases cs.len(),
{
    if cs.len() > 0 {
        lemma_round_empty_beyond(cs.drop_last(), r);
    }
}

proof fn lemma_round_nonempty_below(cs: Seq<(Seq<char>, Seq<Seq<char>>)>, r: int)
    requires
        0 <= r < max_len(cs),
    ensures
        round_of(cs, r).len() > 0,
    decreases cs.len(),
{
    if r >= cs.last().1.len() {
        lemma_round_nonempty_below(cs.drop_last(), r);
    }
}

proof fn lemma_value_in_round(cs: Seq<(Seq<char>, Seq<Seq<char>>)>, i: int, j: int)
    requires
        0 <= i < cs.len(),
        0 <= j < cs[i].1.len(),
    ensures
        j < max_len(cs),
        round_of(cs, j).contains(pair_text(cs[i].0, cs[i].1[j])),
    decreases cs.len(),
{
    let prev = round_of(cs.drop_last(), j);
    let last = cs.last();
    if i == cs.len() - 1 {
        assert(round_of(cs, j) == prev.push(pair_text(last.0, last.1[j])));
        assert(round_of(cs, j)[prev.len() as int] == pair_text(cs[i].0, cs[i].1[j]));
    } else {
        assert(cs.drop_last()[i] == cs[i]);
        lemma_value_in_round(cs.drop_last(), i, j);
        let x = pair_text(cs[i].0, cs[i].1[j]);
        let t = choose|t: int| 0 <= t < prev.len() && prev[t] == x;
        if 0 <= j < last.1.len() {
            assert(round_of(cs, j)[t] == x);
        }
    }
}

/// The sweep runs exactly as many rounds as the longest value list is long: every round
/// before that holds at least one probe, the round after it none. Each supplied value is
/// probed in the round of its position, and the rounds hold as many probes in all as
/// there are values, so no value is probed twice.
pub proof fn lemma_sweep_probes_each_value_once(cs: Seq<(Seq<char>, Seq<Seq<char>>)>)
    ensures
        forall|r: int| 0 <= r < max_len(cs) ==> #[trigger] round_of(cs, r).len() > 0,
        round_of(cs, max_len(cs) as int).len() == 0,
        forall|i: int, j: int|
            0 <= i < cs.len() && 0 <= j < cs[i].1.len() ==> #[trigger] probed_in_round(cs, i, j),
        probes_in(cs, max_len(cs)) == total_values(cs),
{
    assert forall|r: int| 0 <= r < max_len(cs) implies #[trigger] round_of(cs, r).len() > 0 by {
        lemma_round_nonempty_below(cs, r);
    }
    lemma_round_empty_beyond(cs, max_len(cs) as int);
    assert forall|i: int, j: int| 0 <= i < cs.len() && 0 <= j < cs[i].1.len() implies #[trigger] probed_in_round(
        cs,
        i,
        j,
    ) by {
        lemma_value_in_round(cs, i, j);
    }
    lemma_probes_total(cs, max_len(cs));
}

/// No name is configured twice.
pub open spec fn names_distinct(cs: Seq<(Seq<char>, Seq<Seq<char>>)>) -> bool {
    forall|i: int, j: int| 0 <= i < j < cs.len() ==> cs[i].0 != cs[j].0
}

/// `x` is the probe text `k=...` of name `k`.
pub open spec fn names_probe(x: Seq<char>, k: Seq<char>) -> bool {
    k.len() < x.len() && x.take(k.len() as int) == k && x[k.len() as int] == '='
}

/// The name behind each probe text of round `r`, in the same order.
pub open spec fn round_names(cs: Seq<(Seq<char>, Seq<Seq<char>>)>, r: int) -> Seq<Seq<char>>
    decreases cs.len(),
{
    if cs.len() == 0 {
        Seq::empty()
    } else {
        let prev = round_names(cs.drop_last(), r);
        let last = cs.last();
        if 0 <= r < last.1.len() { prev.push(last.0) } else { prev }
    }
}

proof fn lemma_round_names_from(cs: Seq<(Seq<char>, Seq<Seq<char>>)>, r: int)
    ensures
        round_names(cs, r).len() == round_of(cs, r).len(),
        forall|t: int| 0 <= t < round_names(cs, r).len() ==> exists|i: int| 0 <= i < cs.len()
            && cs[i].0 == #[trigger] round_names(cs, r)[t],
        forall|t: int| 0 <= t < round_of(cs, r).len() ==> names_probe(#[trigger] round_of(cs, r)[t], round_names(cs, r)[t]),
    decreases cs.len(),
{
    if cs.len() > 0 {
        let c0 = cs.drop_last();
        lemma_round_names_from(c0, r);
        let last = cs.last();
        assert forall|t: int| 0 <= t < round_names(cs, r).len() implies exists|i: int| 0 <= i < cs.len()
            && cs[i].0 == #[trigger] round_names(cs, r)[t] by {
            if t < round_names(c0, r).len() {
                let i = choose|i: int| 0 <= i < c0.len() && c0[i].0 == round_names(c0, r)[t];
                assert(cs[i] == c0[i]);
            } else {
                assert(cs[cs.len() - 1].0 == round_names(cs, r)[t]);
            }
        }
        assert forall|t: int| 0 <= t < round_of(cs, r).len() implies names_probe(
            #[trigger] round_of(cs, r)[t],
            round_names(cs, r)[t],
        ) by {
            if t < round_of(c0, r).len() {
                assert(round_of(cs, r)[t] == round_of(c0, r)[t]);
                assert(round_names(cs, r)[t] == round_names(c0, r)[t]);
            } else {
                let x = pair_text(last.0, last.1[r]);
                assert(round_of(cs, r)[t] == x);
                assert(round_names(cs, r)[t] == last.0);
                assert(x.take(last.0.len() as int) =~= last.0);
            }
        }
    }
}

/// With distinct names, each round probes a name at most once: every probe text of the
/// round begins with its own name and `=`, and no name stands behind two of them.
pub proof fn lemma_round_probes_each_name_once(cs: Seq<(Seq<char>, Seq<Seq<char>>)>, r: int)
    requires
        names_distinct(cs),
    ensures
        round_names(cs, r).len() == round_of(cs, r).len(),
        round_names(cs, r).no_duplicates(),
        forall|t: int| 0 <= t < round_of(cs, r).len() ==> names_probe(#[trigger] round_of(cs, r)[t], round_names(cs, r)[t]),
    decreases cs.len(),
{
    lemma_round_names_from(cs, r);
    if cs.len() > 0 {
        let c0 = cs.drop_last();
        assert(names_distinct(c0)) by {
            assert forall|i: int, j: int| 0 <= i < j < c0.len() implies c0[i].0 != c0[j].0 by {
                assert(cs[i] == c0[i] && cs[j] == c0[j]);
            }
        }
        lemma_round_probes_each_name_once(c0, r);
        lemma_round_names_from(c0, r);
        let last = cs.last();
        if 0 <= r < last.1.len() {
            let p = round_names(c0, r);
            assert forall|t: int| 0 <= t < p.len() implies p[t] != last.0 by {
                let i = choose|i: int| 0 <= i < c0.len() && c0[i].0 == #[trigger] p[t];
                assert(cs[i] == c0[i]);
            }
            let q = round_names(cs, r);
            assert forall|a: int, b: int| 0 <= a < q.len() && 0 <= b < q.len() && a != b implies q[a] != q[b] by {
                if a < p.len() && b < p.len() {
                    assert(q[a] == p[a] && q[b] == p[b]);
                } else if a < p.len() {
                    assert(q[a] == p[a]);
                } else if b < p.len() {
                    assert(q[b] == p[b]);
                }
            }
        }
    }
}

/// The probe texts of one name, one per value, in order.
pub open spec fn probes_of(name: Seq<char>, values: Seq<Seq<char>>) -> Seq<Seq<char>> {
    values.map_values(|v: Seq<char>| pair_text(name, v))
}

/// Every configured `name=value` text, name by name.
pub open spec fn all_probes(cs: Seq<(Seq<char>, Seq<Seq<char>>)>) -> Seq<Seq<char>>
    decreases cs.len(),
{
    if cs.len() == 0 { Seq::empty() } else { all_probes(cs.drop_last()) + probes_of(cs.last().0, cs.last().1) }
}

/// The probe texts of the first `n` rounds, round after round.
pub open spec fn sweep_probes(cs: Seq<(Seq<char>, Seq<Seq<char>>)>, n: nat) -> Seq<Seq<char>>
    decreases n,
{
    if n == 0 { Seq::empty() } else { sweep_probes(cs, (n - 1) as nat) + round_of(cs, n - 1) }
}

proof fn lemma_sweep_probes_empty(cs: Seq<(Seq<char>, Seq<Seq<char>>)>, n: nat)
    requires
        cs.len() == 0,
    ensures
        sweep_probes(cs, n) == Seq::<Seq<char>>::empty(),
    decreases n,
{
    if n > 0 {
        lemma_sweep_probes_empty(cs, (n - 1) as nat);
        assert(sweep_probes(cs, n) =~= Seq::<Seq<char>>::empty());
    }
}

proof fn lemma_sweep_probes_split(cs: Seq<(Seq<char>, Seq<Seq<char>>)>, n: nat)
    requires
        cs.len() > 0,
    ensures
        sweep_probes(cs, n).to_multiset() == sweep_probes(cs.drop_last(), n).to_multiset().add(
            probes_of(cs.last().0, cs.last().1.take(if n < cs.last().1.len() { n as int } else { cs.last().1.len() as int })).to_multiset(),
        ),
    decreases n,
{
    broadcast use vstd::seq_lib::group_to_multiset_ensures;
    broadcast use vstd::multiset::group_multiset_axioms;
    broadcast use vstd::seq_lib::lemma_multiset_commutative;

    let c0 = cs.drop_last();
    let last = cs.last();
    if n == 0 {
        assert(probes_of(last.0, last.1.take(0)) =~= Seq::<Seq<char>>::empty());
        assert(sweep_probes(cs, 0).to_multiset() =~= sweep_probes(c0, 0).to_multiset().add(Seq::<Seq<char>>::empty().to_multiset()));
    } else {
        let m = (n - 1) as nat;
        lemma_sweep_probes_split(cs, m);
        let k = if m < last.1.len() { m as int } else { last.1.len() as int };
        let k2 = if n < last.1.len() { n as int } else { last.1.len() as int };
        let a = sweep_probes(c0, m);
        let b = probes_of(last.0, last.1.take(k));
        assert(sweep_probes(cs, n) == sweep_probes(cs, m) + round_of(cs, m as int));
        assert(sweep_probes(c0, n) == a + round_of(c0, m as int));
        if m < last.1.len() {
            let x = pair_text(last.0, last.1[m as int]);
            assert(round_of(cs, m as int) == round_of(c0, m as int).push(x));
            assert(probes_of(last.0, last.1.take(k2)) =~= b.push(x));
            assert(sweep_probes(cs, n).to_multiset() =~= sweep_probes(c0, n).to_multiset().add(b.push(x).to_multiset()));
        } else {
            assert(round_of(cs, m as int) == round_of(c0, m as int));
            assert(k2 == k);
            assert(sweep_probes(cs, n).to_multiset() =~= sweep_probes(c0, n).to_multiset().add(b.to_multiset()));
        }
    }
}

proof fn lemma_sweep_probes_all(cs: Seq<(Seq<char>, Seq<Seq<char>>)>, n: nat)
    requires
        n >= max_len(cs),
    ensures
        sweep_probes(cs, n).to_multiset() == all_probes(cs).to_multiset(),
    decreases cs.len(),
{
    broadcast use vstd::seq_lib::lemma_multiset_commutative;

    if cs.len() == 0 {
        lemma_sweep_probes_empty(cs, n);
    } else {
        lemma_sweep_probes_split(cs, n);
        lemma_sweep_probes_all(cs.drop_last(), n);
        assert(cs.last().1.take(cs.last().1.len() as int) == cs.last().1);
    }
}

/// Taken together, the rounds of the sweep hold every configured `name=value` text, each
/// exactly as often as it is configured.
pub proof fn lemma_sweep_probes_are_the_configured_pairs(cs: Seq<(Seq<char>, Seq<Seq<char>>)>)
    ensures
        sweep_probes(cs, max_len(cs)).to_multiset() == all_probes(cs).to_multiset(),
{
    lemma_sweep_probes_all(cs, max_len(cs));
}

/// The probe batches of the sweep over the configured names and values, one per round.
///
/// Round `r` pairs every name that has more than `r` values with its value at position
/// `r`; the sweep stops at the first round that would be empty. A disabled sweep has
/// no rounds.
pub fn non_random_batches(config: &Config) -> (r: Vec<Vec<String>>)
    ensures
        config.disable_custom_parameters ==> r@.len() == 0,
        !config.disable_custom_parameters ==> r@.len() == max_len(config.custom_parameters.deep_view()),
        forall|k: int| 0 <= k < r@.len() ==> #[trigger] r@[k].deep_view() == round_of(config.custom_parameters.deep_view(), k),
{
    let mut r: Vec<Vec<String>> = Vec::new();
    if config.disable_custom_parameters {
        return r;
    }
    let cps = &config.custom_parameters;
    let ghost cs = cps.deep_view();
    let mut rounds: usize = 0;
    let mut i: usize = 0;
    while i < cps.len()
        invariant
            i <= cps.len(),
            cs == cps.deep_view(),
            rounds as nat == max_len(cs.take(i as int)),
        decreases cps.len() - i,
    {
        assert(cs.take(i + 1).drop_last() == cs.take(i as int));
        if rounds < cps[i].1.len() {
            rounds = cps[i].1.len();
        }
        i = i + 1;
    }
    assert(cs.take(cps.len() as int) == cs);
    let mut k: usize = 0;
    while k < rounds
        invariant
            k <= rounds,
            rounds as nat == max_len(cs),
            cs == cps.deep_view(),
            r@.len() == k,
            forall|t: int| 0 <= t < k ==> #[trigger] r@[t].deep_view() == round_of(cs, t),
        decreases rounds - k,
    {
        let round = batch_of_round(cps, k);
        r.push(round);
        k = k + 1;
    }
    r
}

/// Round `k` of the sweep over `cps`.
fn batch_of_round(cps: &Vec<(String, Vec<String>)>, k: usize) -> (round: Vec<String>)
    ensures
        round.deep_view() == round_of(cps.deep_view(), k as int),
{
    let ghost cs = cps.deep_view();
    let mut round: Vec<String> = Vec::new();
    let mut i: usize = 0;
    while i < cps.len()
        invariant
            i <= cps.len(),
            cs == cps.deep_view(),
            round.deep_view() == round_of(cs.take(i as int), k as int),
        decreases cps.len() - i,
    {
        let ghost before = round.deep_view();
        assert(cs.take(i + 1).drop_last() == cs.take(i as int));
        assert(cs.take(i + 1).last() == cs[i as int]);
        if k < cps[i].1.len() {
            let mut s = cps[i].0.clone();
            proof {
                reveal_strlit("=");
            }
            s.append("=");
            s.append(cps[i].1[k].as_str());
            assert(s@ == pair_text(cs[i as int].0, cs[i as int].1[k as int]));
            round.push(s);
            assert(round.deep_view() == before.push(pair_text(cs[i as int].0, cs[i as int].1[k as int])));
        }
        i = i + 1;
    }
    assert(cs.take(cps.len() as int) == cs);
    round
}

} // verus!
