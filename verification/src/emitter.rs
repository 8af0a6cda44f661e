//! Summary statistics of an encoded model: how many records of each entity
//! type and how many hyperedges of each kind it holds.
use vstd::prelude::*;
use crate::parser::texts;

verus! {

/// The number of occurrences of `l` in `s`.
pub open spec fn occurrences(s: Seq<Seq<char>>, l: Seq<char>) -> nat
    decreases s.len(),
{
    if s.len() == 0 {
        0
    } else {
        occurrences(s.drop_last(), l) + if s.last() == l {
            1nat
        } else {
            0nat
        }
    }
}

/// The distinct labels of `s`, in order of first appearance.
pub open spec fn distinct_labels(s: Seq<Seq<char>>) -> Seq<Seq<char>>
    decreases s.len(),
{
    if s.len() == 0 {
        Seq::empty()
    } else {
        let d = distinct_labels(s.drop_last());
        if d.contains(s.last()) {
            d
        } else {
            d.push(s.last())
        }
    }
}

proof fn lemma_distinct_labels(s: Seq<Seq<char>>)
    ensures
        distinct_labels(s).no_duplicates(),
        forall|l: Seq<char>| distinct_labels(s).contains(l) <==> s.contains(l),
    decreases s.len(),
{
    if s.len() > 0 {
        lemma_distinct_labels(s.drop_last());
        let d = distinct_labels(s.drop_last());
        assert forall|l: Seq<char>| distinct_labels(s).contains(l) <==> s.contains(l) by {
            if s.contains(l) {
                let k = choose|k: int| 0 <= k < s.len() && s[k] == l;
                if k < s.len() - 1 {
                    assert(s.drop_last()[k] == l);
                    assert(s.drop_last().contains(l));
                    assert(d.contains(l));
                    if !d.contains(s.last()) {
                        let j = choose|j: int| 0 <= j < d.len() && d[j] == l;
                        assert(d.push(s.last())[j] == l);
                    }
                } else {
                    if !d.contains(s.last()) {
                        assert(d.push(s.last())[d.len() as int] == l);
                    }
                }
            }
            if distinct_labels(s).contains(l) {
                if d.contains(l) {
                    assert(s.drop_last().contains(l));
                    let k = choose|k: int| 0 <= k < s.len() - 1 && s.drop_last()[k] == l;
                    assert(s[k] == l);
                } else {
                    let j = choose|j: int| 0 <= j < d.len() + 1 && d.push(s.last())[j] == l;
                    assert(j == d.len());
                    assert(s[s.len() - 1] == l);
                }
            }
        }
    }
}

proof fn lemma_occurrences_absent(s: Seq<Seq<char>>, l: Seq<char>)
    requires
        !s.contains(l),
    ensures
        occurrences(s, l) == 0,
    decreases s.len(),
{
    if s.len() > 0 {
        assert(s.last() == s[s.len() - 1]);
        assert forall|k: int| 0 <= k < s.len() - 1 implies s.drop_last()[k] != l by {
            assert(s.drop_last()[k] == s[k]);
        }
        lemma_occurrences_absent(s.drop_last(), l);
    }
}

fn find_label(out: &Vec<(String, usize)>, label: &String) -> (r: Option<usize>)
    ensures
        r matches Some(k) ==> k < out@.len() && out@[k as int].0@ == label@,
        r is None ==> forall|j: int| 0 <= j < out@.len() ==> (#[trigger] out@[j]).0@ != label@,
{
    let mut k: usize = 0;
    while k < out.len()
        invariant
            k <= out@.len(),
            forall|j: int| 0 <= j < k ==> (#[trigger] out@[j]).0@ != label@,
        decreases out@.len() - k,
    {
        if out[k].0 == *label {
            return Some(k);
        }
        k = k + 1;
    }
    None
}

/// Count the labels: each distinct label, in order of first appearance,
/// with its number of occurrences.
pub fn tally_labels(labels: &Vec<String>) -> (r: Vec<(String, usize)>)
    ensures
        r@.map_values(|p: (String, usize)| p.0@) == distinct_labels(texts(labels@)),
        forall|i: int|
            0 <= i < r@.len() ==> (#[trigger] r@[i]).1 == occurrences(texts(labels@), r@[i].0@),
{
    let ghost lv = texts(labels@);
    let mut out: Vec<(String, usize)> = Vec::new();
    let mut i: usize = 0;
    assert(out@.map_values(|p: (String, usize)| p.0@) =~= distinct_labels(lv.take(0)));
    while i < labels.len()
        invariant
            lv == texts(labels@),
            i <= labels@.len(),
            out@.map_values(|p: (String, usize)| p.0@) == distinct_labels(lv.take(i as int)),
            forall|k: int|
                0 <= k < out@.len() ==> (#[trigger] out@[k]).1 == occurrences(
                    lv.take(i as int),
                    out@[k].0@,
                ),
            forall|k: int| 0 <= k < out@.len() ==> (#[trigger] out@[k]).1 <= i,
        decreases labels@.len() - i,
    {
        let ghost prev = lv.take(i as int);
        let ghost next = lv.take(i + 1);
        assert(next.drop_last() =~= prev);
        assert(next.last() == labels@[i as int]@);
        proof {
            lemma_distinct_labels(prev);
        }
        let label = &labels[i];
        let ghost keys = out@.map_values(|p: (String, usize)| p.0@);
        let ghost old_out = out@;
        match find_label(&out, label) {
            Some(k) => {
                assert(keys[k as int] == label@);
                assert(keys.contains(label@));
                let c = out[k].1;
                out[k].1 = c + 1;
                assert(out@.map_values(|p: (String, usize)| p.0@) =~= keys);
                assert forall|j: int| 0 <= j < out@.len() implies (#[trigger] out@[j]).1
                    == occurrences(next, out@[j].0@) by {
                    if j != k {
                        assert(old_out[j] == out@[j]);
                        assert(keys[j] != keys[k as int]);
                    }
                }
            },
            None => {
                assert forall|j: int| 0 <= j < keys.len() implies keys[j] != label@ by {
                    assert(keys[j] == old_out[j].0@);
                }
                assert(!keys.contains(label@));
                proof {
                    lemma_occurrences_absent(prev, label@);
                }
                out.push((label.clone(), 1));
                assert(out@.map_values(|p: (String, usize)| p.0@) =~= keys.push(label@));
                assert forall|j: int| 0 <= j < out@.len() implies (#[trigger] out@[j]).1
                    == occurrences(next, out@[j].0@) by {
                    if j < old_out.len() {
                        assert(old_out[j] == out@[j]);
                        assert(keys[j] != label@);
                    }
                }
            },
        }
        i = i + 1;
    }
    assert(lv.take(labels@.len() as int) =~= lv);
    out
}

/// The sum of the occurrences in `s` of the labels `ls`.
pub open spec fn occurrence_total(s: Seq<Seq<char>>, ls: Seq<Seq<char>>) -> nat
    decreases ls.len(),
{
    if ls.len() == 0 {
        0
    } else {
        occurrence_total(s, ls.drop_last()) + occurrences(s, ls.last())
    }
}

proof fn lemma_total_push_label(s: Seq<Seq<char>>, x: Seq<char>, ls: Seq<Seq<char>>)
    ensures
        occurrence_total(s.push(x), ls) == occurrence_total(s, ls) + occurrences(ls, x),
    decreases ls.len(),
{
    if ls.len() > 0 {
        lemma_total_push_label(s, x, ls.drop_last());
        assert(s.push(x).drop_last() =~= s);
    }
}

proof fn lemma_occurrences_no_dup(ls: Seq<Seq<char>>, x: Seq<char>)
    requires
        ls.no_duplicates(),
        ls.contains(x),
    ensures
        occurrences(ls, x) == 1,
    decreases ls.len(),
{
    let d = ls.drop_last();
    if ls.last() == x {
        assert forall|k: int| 0 <= k < d.len() implies d[k] != x by {
            assert(d[k] == ls[k]);
            assert(ls[k] != ls[ls.len() - 1]);
        }
        lemma_occurrences_absent(d, x);
    } else {
        let k = choose|k: int| 0 <= k < ls.len() && ls[k] == x;
        assert(d[k] == x);
        assert(d.no_duplicates()) by {
            assert forall|i: int, j: int| 0 <= i < d.len() && 0 <= j < d.len() && i != j implies d[i]
                != d[j] by {
                assert(d[i] == ls[i] && d[j] == ls[j]);
            }
        }
        lemma_occurrences_no_dup(d, x);
    }
}

/// The counts of a tally account for every label once: their sum is the
/// number of labels.
pub proof fn tally_accounts_for_every_label(labels: Seq<Seq<char>>)
    ensures
        occurrence_total(labels, distinct_labels(labels)) == labels.len(),
    decreases labels.len(),
{
    if labels.len() > 0 {
        let s = labels.drop_last();
        let x = labels.last();
        let d = distinct_labels(s);
        tally_accounts_for_every_label(s);
        lemma_distinct_labels(s);
        lemma_distinct_labels(labels);
        assert(s.push(x) =~= labels);
        lemma_total_push_label(s, x, d);
        if d.contains(x) {
            lemma_occurrences_no_dup(d, x);
        } else {
            lemma_occurrences_absent(d, x);
            lemma_occurrences_absent(s, x);
            assert(d.push(x).drop_last() =~= d);
        }
    }
}

} // verus!
