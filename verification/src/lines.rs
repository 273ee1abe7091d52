use vstd::prelude::*;

use crate::extract::{Method, MethodModel};
use crate::text::{norm_spec, normalize_line};

verus! {

/// The tested-line set: every normalized line that appears in any
/// test method's body, kept for membership tests during inference.
pub struct LineSet {
    pub items: Vec<String>,
}

impl View for LineSet {
    type V = Set<Seq<char>>;

    open spec fn view(&self) -> Set<Seq<char>> {
        self.items@.map_values(|s: String| s@).to_set()
    }
}

impl LineSet {
    /// The empty set of lines.
    pub fn new() -> (r: LineSet)
        ensures
            r@ == Set::<Seq<char>>::empty(),
    {
        let r = LineSet { items: Vec::new() };
        proof {
            assert(r@ =~= Set::<Seq<char>>::empty());
        }
        r
    }

    /// Adds one line to the set.
    pub fn insert(&mut self, line: String)
        ensures
            final(self)@ == old(self)@.insert(line@),
    {
        let ghost oldm = self.items@.map_values(|s: String| s@);
        self.items.push(line);
        proof {
            let newm = self.items@.map_values(|s: String| s@);
            assert(newm =~= oldm.push(line@));
            assert forall|a: Seq<char>| newm.contains(a) implies oldm.to_set().insert(
                line@,
            ).contains(a) by {
                let i = choose|i: int| 0 <= i < newm.len() && newm[i] == a;
                if i < oldm.len() {
                    assert(oldm[i] == a);
                }
            }
            assert forall|a: Seq<char>| oldm.to_set().insert(line@).contains(a) implies newm.contains(
                a,
            ) by {
                if a == line@ {
                    assert(newm[newm.len() - 1] == a);
                } else {
                    let i = choose|i: int| 0 <= i < oldm.len() && oldm[i] == a;
                    assert(newm[i] == a);
                }
            }
            assert(self@ =~= old(self)@.insert(line@));
        }
    }

    /// Whether a line, as given, is in the set.
    pub fn contains_line(&self, line: &String) -> (r: bool)
        ensures
            r == self@.contains(line@),
    {
        let mut i: usize = 0;
        while i < self.items.len()
            invariant
                0 <= i <= self.items.len(),
                forall|k: int| 0 <= k < i ==> self.items@[k]@ != line@,
            decreases self.items.len() - i,
        {
            if self.items[i] == *line {
                proof {
                    let m = self.items@.map_values(|s: String| s@);
                    assert(m[i as int] == line@);
                    assert(m.contains(line@));
                }
                return true;
            }
            i = i + 1;
        }
        proof {
            let m = self.items@.map_values(|s: String| s@);
            assert forall|k: int| 0 <= k < m.len() implies m[k] != line@ by {
                assert(self.items@[k]@ != line@);
            }
            assert(!m.contains(line@));
        }
        false
    }
}

/// The normalized lines of one method body, as a set.
pub open spec fn norm_set(body: Seq<Seq<char>>) -> Set<Seq<char>>
    decreases body.len(),
{
    if body.len() == 0 {
        Set::<Seq<char>>::empty()
    } else {
        norm_set(body.drop_last()).insert(norm_spec(body.last()))
    }
}

/// The tested-line set derived from a collection of test methods: the
/// normalized lines of all their bodies.
pub open spec fn tested_set(methods: Seq<MethodModel>) -> Set<Seq<char>>
    decreases methods.len(),
{
    if methods.len() == 0 {
        Set::<Seq<char>>::empty()
    } else {
        tested_set(methods.drop_last()).union(norm_set(methods.last().body))
    }
}

/// Derives the tested-line set: every line of every test method's
/// body, normalized.
pub fn extract_tested_lines(test_methods: &Vec<Method>) -> (r: LineSet)
    ensures
        r@ == tested_set(test_methods@.map_values(|m: Method| m@)),
{
    let ghost ms = test_methods@.map_values(|m: Method| m@);
    let mut r = LineSet::new();
    let mut i: usize = 0;
    while i < test_methods.len()
        invariant
            ms == test_methods@.map_values(|m: Method| m@),
            0 <= i <= test_methods.len(),
            r@ == tested_set(ms.take(i as int)),
        decreases test_methods.len() - i,
    {
        proof {
            assert(ms.take(i + 1).drop_last() =~= ms.take(i as int));
            assert(ms.take(i + 1).last() == ms[i as int]);
        }
        let body = &test_methods[i].body;
        let ghost bl = body@.map_values(|s: String| s@);
        proof {
            assert(test_methods@[i as int]@ == ms[i as int]);
            assert(bl == ms[i as int].body);
            assert(tested_set(ms.take(i as int)).union(norm_set(bl.take(0))) =~= r@);
        }
        let mut j: usize = 0;
        while j < body.len()
            invariant
                bl == body@.map_values(|s: String| s@),
                0 <= j <= body.len(),
                r@ == tested_set(ms.take(i as int)).union(norm_set(bl.take(j as int))),
            decreases body.len() - j,
        {
            proof {
                assert(bl.take(j + 1).drop_last() =~= bl.take(j as int));
                assert(bl.take(j + 1).last() == bl[j as int]);
            }
            let line = &body[j];
            proof {
                assert(line@ == bl[j as int]);
            }
            let n = normalize_line(line.as_str());
            r.insert(n);
            proof {
                assert(r@ =~= tested_set(ms.take(i as int)).union(norm_set(bl.take(j + 1))));
            }
            j = j + 1;
        }
        proof {
            assert(bl.take(body@.len() as int) =~= bl);
            assert(r@ =~= tested_set(ms.take(i + 1)));
        }
        i = i + 1;
    }
    proof {
        assert(ms.take(test_methods@.len() as int) =~= ms);
    }
    r
}

/// What it means for a line to be in a body's normalized-line set:
/// some body line normalizes to it.
pub proof fn lemma_norm_set_contains(body: Seq<Seq<char>>, l: Seq<char>)
    ensures
        norm_set(body).contains(l) <==> exists|i: int|
            0 <= i < body.len() && norm_spec(body[i]) == l,
    decreases body.len(),
{
    if body.len() > 0 {
        let pre = body.drop_last();
        lemma_norm_set_contains(pre, l);
        if norm_set(body).contains(l) {
            if l == norm_spec(body.last()) {
                assert(norm_spec(body[body.len() - 1]) == l);
            } else {
                let i = choose|i: int| 0 <= i < pre.len() && norm_spec(pre[i]) == l;
                assert(norm_spec(body[i]) == l);
            }
        }
        if exists|i: int| 0 <= i < body.len() && norm_spec(body[i]) == l {
            let i = choose|i: int| 0 <= i < body.len() && norm_spec(body[i]) == l;
            if i == body.len() - 1 {
                assert(norm_set(body).contains(l));
            } else {
                assert(norm_spec(pre[i]) == l);
                assert(norm_set(pre).contains(l));
            }
        }
    }
}

/// What it means for a line to be tested: some method of the
/// collection has it in its normalized-line set.
pub proof fn lemma_tested_set_contains(ms: Seq<MethodModel>, l: Seq<char>)
    ensures
        tested_set(ms).contains(l) <==> exists|k: int|
            0 <= k < ms.len() && norm_set(ms[k].body).contains(l),
    decreases ms.len(),
{
    if ms.len() > 0 {
        let pre = ms.drop_last();
        lemma_tested_set_contains(pre, l);
        if tested_set(ms).contains(l) {
            if norm_set(ms.last().body).contains(l) {
                assert(norm_set(ms[ms.len() - 1].body).contains(l));
            } else {
                let k = choose|k: int| 0 <= k < pre.len() && norm_set(pre[k].body).contains(l);
                assert(norm_set(ms[k].body).contains(l));
            }
        }
        if exists|k: int| 0 <= k < ms.len() && norm_set(ms[k].body).contains(l) {
            let k = choose|k: int| 0 <= k < ms.len() && norm_set(ms[k].body).contains(l);
            if k == ms.len() - 1 {
                assert(tested_set(ms).contains(l));
            } else {
                assert(norm_set(pre[k].body).contains(l));
                assert(tested_set(pre).contains(l));
            }
        }
    }
}

/// Set independence: the tested-line set does not depend on the order
/// in which test methods were discovered. Two discovery orders of the
/// same test methods derive the same set.
pub proof fn lemma_tested_set_permutation(ms1: Seq<MethodModel>, ms2: Seq<MethodModel>)
    requires
        ms1.to_multiset() == ms2.to_multiset(),
    ensures
        tested_set(ms1) == tested_set(ms2),
{
    broadcast use vstd::seq_lib::group_seq_properties;

    assert forall|l: Seq<char>| tested_set(ms1).contains(l) implies tested_set(ms2).contains(
        l,
    ) by {
        lemma_tested_set_contains(ms1, l);
        lemma_tested_set_contains(ms2, l);
        let k = choose|k: int| 0 <= k < ms1.len() && norm_set(ms1[k].body).contains(l);
        assert(ms1.contains(ms1[k]));
        assert(ms1.to_multiset().contains(ms1[k]));
        assert(ms2.to_multiset().contains(ms1[k]));
        assert(ms2.contains(ms1[k]));
        let j = choose|j: int| 0 <= j < ms2.len() && ms2[j] == ms1[k];
        assert(norm_set(ms2[j].body).contains(l));
    }
    assert forall|l: Seq<char>| tested_set(ms2).contains(l) implies tested_set(ms1).contains(
        l,
    ) by {
        lemma_tested_set_contains(ms1, l);
        lemma_tested_set_contains(ms2, l);
        let k = choose|k: int| 0 <= k < ms2.len() && norm_set(ms2[k].body).contains(l);
        assert(ms2.contains(ms2[k]));
        assert(ms2.to_multiset().contains(ms2[k]));
        assert(ms1.to_multiset().contains(ms2[k]));
        assert(ms1.contains(ms2[k]));
        let j = choose|j: int| 0 <= j < ms1.len() && ms1[j] == ms2[k];
        assert(norm_set(ms1[j].body).contains(l));
    }
    assert(tested_set(ms1) =~= tested_set(ms2));
}

/// The tested-line set of two method collections joined is the union
/// of their tested-line sets.
pub proof fn lemma_tested_set_concat(a: Seq<MethodModel>, b: Seq<MethodModel>)
    ensures
        tested_set(a + b) == tested_set(a).union(tested_set(b)),
    decreases b.len(),
{
    if b.len() == 0 {
        assert(a + b =~= a);
        assert(tested_set(a).union(tested_set(b)) =~= tested_set(a));
    } else {
        lemma_tested_set_concat(a, b.drop_last());
        assert((a + b).drop_last() =~= a + b.drop_last());
        assert((a + b).last() == b.last());
        assert(tested_set(a + b) =~= tested_set(a).union(tested_set(b)));
    }
}

/// Appending one more test method can only grow the tested-line set.
pub proof fn lemma_tested_set_grows(ms: Seq<MethodModel>, new: MethodModel)
    ensures
        tested_set(ms.push(new)) == tested_set(ms).union(norm_set(new.body)),
        tested_set(ms).subset_of(tested_set(ms.push(new))),
{
    assert(ms.push(new).drop_last() =~= ms);
    assert(ms.push(new).last() == new);
    assert(tested_set(ms.push(new)) == tested_set(ms).union(norm_set(new.body)));
}

} // verus!
