use vstd::prelude::*;

use crate::runner::contains_string;
use crate::types::FoundParameter;

verus! {

broadcast use vstd::seq_lib::group_filter_ensures;

/// `k` is the text before the first `=` of `name`, and `name` has an `=`.
pub open spec fn is_key_of(k: Seq<char>, name: Seq<char>) -> bool {
    &&& k.len() < name.len()
    &&& name[k.len() as int] == '='
    &&& forall|t: int| 0 <= t < k.len() ==> k[t] == name[t] && k[t] != '='
}

/// The names of the found parameters, in order.
pub open spec fn names_of(found: Seq<FoundParameter>) -> Seq<Seq<char>> {
    found.map_values(|f: FoundParameter| f.name@)
}

/// `name` is a `key=value` finding whose key is already among `names`.
pub open spec fn redundant(names: Seq<Seq<char>>, name: Seq<char>) -> bool {
    exists|j: int| 0 <= j < names.len() && is_key_of(names[j], name)
}

pub open spec fn not_redundant(names: Seq<Seq<char>>) -> spec_fn(FoundParameter) -> bool {
    |f: FoundParameter| !redundant(names, f.name@)
}

/// The findings left once every `key=value` finding whose bare key was found is dropped.
pub open spec fn deduped(found: Seq<FoundParameter>) -> Seq<FoundParameter> {
    found.filter(not_redundant(names_of(found)))
}

pub open spec fn named_in(names: Seq<Seq<char>>) -> spec_fn(FoundParameter) -> bool {
    |f: FoundParameter| names.contains(f.name@)
}

/// Whether `k` is the text before the first `=` of `name`, where `name` has one.
pub fn is_key(k: &str, name: &str) -> (r: bool)
    ensures
        r == is_key_of(k@, name@),
{
    let kl = k.unicode_len();
    let nl = name.unicode_len();
    if kl >= nl {
        return false;
    }
    if name.get_char(kl) != '=' {
        return false;
    }
    let mut i: usize = 0;
    while i < kl
        invariant
            i <= kl,
            kl == k@.len(),
            nl == name@.len(),
            kl < nl,
            forall|t: int| 0 <= t < i ==> k@[t] == name@[t] && k@[t] != '=',
        decreases kl - i,
    {
        let c = k.get_char(i);
        if c == '=' || c != name.get_char(i) {
            return false;
        }
        i = i + 1;
    }
    true
}

/// Whether some name in `names` is the key of `name`.
fn is_redundant(names: &Vec<String>, name: &String) -> (r: bool)
    ensures
        r == redundant(names.deep_view(), name@),
{
    let mut j: usize = 0;
    while j < names.len()
        invariant
            j <= names.len(),
            forall|t: int| 0 <= t < j ==> !is_key_of(names.deep_view()[t], name@),
        decreases names.len() - j,
    {
        if is_key(names[j].as_str(), name.as_str()) {
            assert(names.deep_view()[j as int] == names[j as int]@);
            return true;
        }
        j = j + 1;
    }
    false
}

/// The names of `found`, copied.
fn collect_names(found: &Vec<FoundParameter>) -> (names: Vec<String>)
    ensures
        names.deep_view() == names_of(found@),
{
    let mut names: Vec<String> = Vec::new();
    let mut i: usize = 0;
    while i < found.len()
        invariant
            i <= found.len(),
            names.deep_view() == names_of(found@.take(i as int)),
        decreases found.len() - i,
    {
        names.push(found[i].name.clone());
        assert(names_of(found@.take(i + 1)) == names_of(found@.take(i as int)).push(found@[i as int].name@));
        i = i + 1;
    }
    assert(found@.take(found.len() as int) == found@);
    names
}

/// Keeps, in order, the findings whose key is not among `names` (with `by_key`), or
/// whose name `names` holds (without it).
fn retain_by_names(found: Vec<FoundParameter>, names: &Vec<String>, by_key: bool) -> (r: Vec<FoundParameter>)
    ensures
        by_key ==> r@ == found@.filter(not_redundant(names.deep_view())),
        !by_key ==> r@ == found@.filter(named_in(names.deep_view())),
{
    let ghost all = found@;
    let ghost pred = if by_key { not_redundant(names.deep_view()) } else { named_in(names.deep_view()) };
    let mut rest = found;
    let mut r: Vec<FoundParameter> = Vec::new();
    let n = rest.len();
    let mut i: usize = 0;
    while i < n
        invariant
            i <= n,
            n == all.len(),
            rest@ == all.skip(i as int),
            r@ == all.take(i as int).filter(pred),
            pred == (if by_key { not_redundant(names.deep_view()) } else { named_in(names.deep_view()) }),
        decreases n - i,
    {
        let f = rest.remove(0);
        assert(f == all[i as int]);
        assert(all.take(i + 1).drop_last() == all.take(i as int));
        assert(all.take(i + 1).last() == all[i as int]);
        reveal(Seq::filter);
        let keep = if by_key {
            !is_redundant(names, &f.name)
        } else {
            contains_string(names, &f.name)
        };
        assert(keep == pred(f));
        if keep {
            r.push(f);
        }
        assert(rest@ == all.skip(i + 1));
        i = i + 1;
    }
    assert(all.take(n as int) == all);
    r
}

/// A finding whose name is a bare key `x` outlives the dedup, while every `x=v` beside it
/// is dropped.
pub proof fn lemma_dedup_drops_pair_of_found_key(found: Seq<FoundParameter>, x: Seq<char>, v: Seq<char>)
    requires
        !x.contains('='),
        names_of(found).contains(x),
        names_of(found).contains(x + seq!['='] + v),
    ensures
        names_of(deduped(found)).contains(x),
        !names_of(deduped(found)).contains(x + seq!['='] + v),
{
    let names = names_of(found);
    let p = not_redundant(names);
    let out = deduped(found);
    let i = choose|i: int| 0 <= i < names.len() && names[i] == x;
    assert(!redundant(names, x)) by {
        if redundant(names, x) {
            let j = choose|j: int| 0 <= j < names.len() && is_key_of(names[j], x);
            assert(x.contains(x[names[j].len() as int]));
        }
    }
    assert(p(found[i]));
    found.lemma_filter_contains(p, i);
    let t = choose|t: int| 0 <= t < out.len() && out[t] == found[i];
    assert(names_of(out)[t] == x);
    let xv = x + seq!['='] + v;
    let j = choose|j: int| 0 <= j < names.len() && names[j] == xv;
    assert(is_key_of(names[i], xv)) by {
        assert(xv[x.len() as int] == '=');
        assert forall|u: int| 0 <= u < x.len() implies x[u] == xv[u] && x[u] != '=' by {
            if x[u] == '=' {
                assert(x.contains(x[u]));
            }
        }
    }
    if names_of(out).contains(xv) {
        let u = choose|u: int| 0 <= u < names_of(out).len() && names_of(out)[u] == xv;
        found.lemma_filter_pred(p, u);
    }
}

/// A `x=v` finding whose bare key `x` was not found outlives the dedup.
pub proof fn lemma_dedup_keeps_pair_without_key(found: Seq<FoundParameter>, x: Seq<char>, v: Seq<char>, i: int)
    requires
        !x.contains('='),
        !names_of(found).contains(x),
        0 <= i < found.len(),
        found[i].name@ == x + seq!['='] + v,
    ensures
        deduped(found).contains(found[i]),
{
    let names = names_of(found);
    let xv = x + seq!['='] + v;
    assert(!redundant(names, xv)) by {
        if redundant(names, xv) {
            let j = choose|j: int| 0 <= j < names.len() && is_key_of(names[j], xv);
            let k = names[j];
            if k.len() < x.len() {
                assert(x[k.len() as int] == xv[k.len() as int]);
                assert(x.contains(x[k.len() as int]));
            } else if k.len() > x.len() {
                assert(k[x.len() as int] == xv[x.len() as int]);
            } else {
                assert(k =~= x);
            }
        }
    }
    found.lemma_filter_contains(not_redundant(names), i);
}

proof fn lemma_filter_sub_multiset(s: Seq<FoundParameter>, p: spec_fn(FoundParameter) -> bool)
    ensures
        s.filter(p).to_multiset().subset_of(s.to_multiset()),
    decreases s.len(),
{
    broadcast use vstd::seq_lib::group_to_multiset_ensures;
    broadcast use vstd::multiset::group_multiset_axioms;

    reveal(Seq::filter);
    if s.len() > 0 {
        let d = s.drop_last();
        lemma_filter_sub_multiset(d, p);
        assert(s == d.push(s.last()));
        if p(s.last()) {
            assert(s.filter(p) == d.filter(p).push(s.last()));
        }
    }
}

/// The verifier's answer only narrows the findings: what comes out was found before, in
/// the same order, and no finding comes out more often than it went in; a failed
/// verifier leaves them all.
pub proof fn lemma_verification_only_narrows(found: Seq<FoundParameter>, confirmed: Seq<Seq<char>>)
    ensures
        found.filter(named_in(confirmed)).len() <= found.len(),
        found.filter(named_in(confirmed)).to_multiset().subset_of(found.to_multiset()),
        forall|t: int|
            0 <= t < found.filter(named_in(confirmed)).len() ==> found.contains(
                #[trigger] found.filter(named_in(confirmed))[t],
            ),
{
    let out = found.filter(named_in(confirmed));
    lemma_filter_sub_multiset(found, named_in(confirmed));
    assert forall|t: int| 0 <= t < out.len() implies found.contains(#[trigger] out[t]) by {
        assert(out.contains(out[t]));
        found.lemma_filter_contains_rev(named_in(confirmed), out[t]);
    }
}

/// Drops every `key=value` finding whose key was itself found.
pub fn dedup_found(found: Vec<FoundParameter>) -> (r: Vec<FoundParameter>)
    ensures
        r@ == deduped(found@),
{
    let names = collect_names(&found);
    retain_by_names(found, &names, true)
}

/// Merges the verifier's answer into the findings.
///
/// `verified` is `None` when the verifier failed: the findings then stay as they are and
/// the second item of the result asks for a warning. Otherwise only the findings whose
/// name the verifier confirmed stay, in their order.
pub fn apply_verification(found: Vec<FoundParameter>, verified: Option<Vec<FoundParameter>>) -> (r: (
    Vec<FoundParameter>,
    bool,
))
    ensures
        verified is None ==> r.0@ == found@ && r.1,
        verified is Some ==> r.0@ == found@.filter(named_in(names_of(verified->0@))) && !r.1,
{
    match verified {
        None => (found, true),
        Some(v) => {
            let names = collect_names(&v);
            (retain_by_names(found, &names, false), false)
        },
    }
}

} // verus!
