//! Merging the decisions on all dependencies into two ordered sets of lines.

use vstd::prelude::*;
use crate::classify::{Decision, DecisionModel};
use crate::lines::{lemma_ordered_form_unique, orders, LineSet};
use crate::text::texts;

verus! {

/// The models of a sequence of decisions, in the same order.
pub open spec fn decision_models(decisions: Seq<Decision>) -> Seq<DecisionModel> {
    decisions.map_values(|d: Decision| d@)
}

/// The fetch locators that the decisions contribute, as a set.
pub open spec fn locators_of(decisions: Seq<DecisionModel>) -> Set<Seq<char>> {
    Set::new(
        |l: Seq<char>|
            exists|i: int|
                0 <= i < decisions.len() && (#[trigger] decisions[i]).locator() == Some(l),
    )
}

/// The auxiliary lines that the decisions contribute, as a set.
pub open spec fn auxiliary_of(decisions: Seq<DecisionModel>) -> Set<Seq<char>> {
    Set::new(
        |l: Seq<char>|
            exists|i: int|
                0 <= i < decisions.len() && (#[trigger] decisions[i]).auxiliary().contains(l),
    )
}

/// The two ordered sets of lines of a recipe.
#[derive(Clone, Debug)]
pub struct Accumulated {
    /// Where to fetch each external dependency, sorted, each once.
    pub fetch_locators: Vec<String>,
    /// Checksum declarations and pin lines, sorted, each once.
    pub auxiliary_lines: Vec<String>,
}

/// Mathematical model of an [`Accumulated`].
pub struct AccumulatedModel {
    pub fetch_locators: Seq<Seq<char>>,
    pub auxiliary_lines: Seq<Seq<char>>,
}

impl View for Accumulated {
    type V = AccumulatedModel;

    open spec fn view(&self) -> AccumulatedModel {
        AccumulatedModel {
            fetch_locators: texts(self.fetch_locators@),
            auxiliary_lines: texts(self.auxiliary_lines@),
        }
    }
}

/// `out` is what the decisions accumulate to: each of its two sequences is
/// ascending, and holds exactly the lines that the decisions contribute.
pub open spec fn accumulates(decisions: Seq<DecisionModel>, out: AccumulatedModel) -> bool {
    &&& orders(out.fetch_locators, locators_of(decisions))
    &&& orders(out.auxiliary_lines, auxiliary_of(decisions))
}

/// The locators of the first `i + 1` decisions are those of the first `i`
/// and that of decision `i`.
pub proof fn lemma_locators_step(decisions: Seq<DecisionModel>, i: int)
    requires
        0 <= i < decisions.len(),
    ensures
        locators_of(decisions.take(i + 1)) == match decisions[i].locator() {
            Some(l) => locators_of(decisions.take(i)).insert(l),
            None => locators_of(decisions.take(i)),
        },
{
    let shorter = decisions.take(i);
    let longer = decisions.take(i + 1);
    let expected = match decisions[i].locator() {
        Some(l) => locators_of(shorter).insert(l),
        None => locators_of(shorter),
    };
    assert forall|l: Seq<char>| locators_of(longer).contains(l) <==> expected.contains(l) by {
        if locators_of(longer).contains(l) {
            let k = choose|k: int| 0 <= k < longer.len() && (#[trigger] longer[k]).locator() == Some(l);
            if k < i {
                assert(shorter[k].locator() == Some(l));
            }
        }
        if locators_of(shorter).contains(l) {
            let k = choose|k: int|
                0 <= k < shorter.len() && (#[trigger] shorter[k]).locator() == Some(l);
            assert(longer[k].locator() == Some(l));
        }
        if decisions[i].locator() == Some(l) {
            assert(longer[i].locator() == Some(l));
        }
    }
    assert(locators_of(longer) =~= expected);
}

/// The auxiliary lines of the first `i + 1` decisions are those of the
/// first `i` and those of decision `i`.
pub proof fn lemma_auxiliary_step(decisions: Seq<DecisionModel>, i: int)
    requires
        0 <= i < decisions.len(),
    ensures
        auxiliary_of(decisions.take(i + 1)) == auxiliary_of(decisions.take(i)).union(
            decisions[i].auxiliary().to_set(),
        ),
{
    let shorter = decisions.take(i);
    let longer = decisions.take(i + 1);
    let expected = auxiliary_of(shorter).union(decisions[i].auxiliary().to_set());
    assert forall|l: Seq<char>| auxiliary_of(longer).contains(l) <==> expected.contains(l) by {
        if auxiliary_of(longer).contains(l) {
            let k = choose|k: int|
                0 <= k < longer.len() && (#[trigger] longer[k]).auxiliary().contains(l);
            if k < i {
                assert(shorter[k].auxiliary().contains(l));
            }
        }
        if auxiliary_of(shorter).contains(l) {
            let k = choose|k: int|
                0 <= k < shorter.len() && (#[trigger] shorter[k]).auxiliary().contains(l);
            assert(longer[k].auxiliary().contains(l));
        }
        if decisions[i].auxiliary().contains(l) {
            assert(longer[i].auxiliary().contains(l));
        }
    }
    assert(auxiliary_of(longer) =~= expected);
}

/// Merges the locators and the auxiliary lines of `decisions` into two
/// ordered sets: sorted lexicographically, each line once.
pub fn accumulate(decisions: &Vec<Decision>) -> (out: Accumulated)
    ensures
        accumulates(decision_models(decisions@), out@),
{
    let ghost models = decision_models(decisions@);
    let mut locators = LineSet::new();
    let mut auxiliary = LineSet::new();
    proof {
        assert(locators@.to_set() =~= locators_of(models.take(0)));
        assert(auxiliary@.to_set() =~= auxiliary_of(models.take(0)));
    }
    let mut i: usize = 0;
    while i < decisions.len()
        invariant
            i <= decisions.len(),
            models == decision_models(decisions@),
            orders(locators@, locators_of(models.take(i as int))),
            orders(auxiliary@, auxiliary_of(models.take(i as int))),
        decreases decisions.len() - i,
    {
        proof {
            lemma_locators_step(models, i as int);
            lemma_auxiliary_step(models, i as int);
            assert(models[i as int] == decisions@[i as int]@);
        }
        let ghost earlier = auxiliary_of(models.take(i as int));
        match &decisions[i] {
            Decision::Skip => {
                proof {
                    assert(earlier.union(Seq::<Seq<char>>::empty().to_set()) =~= earlier);
                }
            },
            Decision::Registry { locator, checksum_line } => {
                locators = locators.with_line(locator.clone());
                match checksum_line {
                    Some(line) => {
                        auxiliary = auxiliary.with_line(line.clone());
                        proof {
                            let only = seq![line@];
                            assert(only[0] == line@);
                            assert(earlier.union(only.to_set()) =~= earlier.insert(line@));
                        }
                    },
                    None => {
                        proof {
                            assert(earlier.union(Seq::<Seq<char>>::empty().to_set()) =~= earlier);
                        }
                    },
                }
            },
            Decision::VersionControl { locator, pin_lines } => {
                locators = locators.with_line(locator.clone());
                let mut k: usize = 0;
                proof {
                    assert(earlier.union(texts(pin_lines@).take(0).to_set()) =~= earlier);
                }
                while k < pin_lines.len()
                    invariant
                        k <= pin_lines.len(),
                        orders(
                            auxiliary@,
                            earlier.union(texts(pin_lines@).take(k as int).to_set()),
                        ),
                    decreases pin_lines.len() - k,
                {
                    auxiliary = auxiliary.with_line(pin_lines[k].clone());
                    proof {
                        let all = texts(pin_lines@);
                        let shorter = all.take(k as int);
                        let longer = all.take(k + 1);
                        assert(longer =~= shorter.push(all[k as int]));
                        assert forall|l: Seq<char>|
                            longer.contains(l) <==> (shorter.contains(l) || l == all[k as int]) by {
                            if longer.contains(l) {
                                let p = choose|p: int| 0 <= p < longer.len() && longer[p] == l;
                                if p < k {
                                    assert(shorter[p] == l);
                                }
                            }
                            if shorter.contains(l) {
                                let p = choose|p: int| 0 <= p < shorter.len() && shorter[p] == l;
                                assert(longer[p] == l);
                            }
                            if l == all[k as int] {
                                assert(longer[k as int] == l);
                            }
                        }
                        assert(earlier.union(longer.to_set()) =~= earlier.union(
                            shorter.to_set(),
                        ).insert(all[k as int]));
                    }
                    k += 1;
                }
                proof {
                    assert(texts(pin_lines@).take(k as int) =~= texts(pin_lines@));
                }
            },
            Decision::Other { locator } => {
                locators = locators.with_line(locator.clone());
                proof {
                    assert(earlier.union(Seq::<Seq<char>>::empty().to_set()) =~= earlier);
                }
            },
        }
        i += 1;
    }
    proof {
        assert(models.take(i as int) =~= models);
    }
    Accumulated {
        fetch_locators: locators.into_lines(),
        auxiliary_lines: auxiliary.into_lines(),
    }
}

/// Decisions that are the same up to order contribute the same lines.
pub proof fn lemma_same_decisions_same_lines(a: Seq<DecisionModel>, b: Seq<DecisionModel>)
    requires
        forall|d: DecisionModel| a.contains(d) <==> b.contains(d),
    ensures
        locators_of(a) == locators_of(b),
        auxiliary_of(a) == auxiliary_of(b),
{
    assert forall|l: Seq<char>| locators_of(a).contains(l) <==> locators_of(b).contains(l) by {
        if locators_of(a).contains(l) {
            let i = choose|i: int| 0 <= i < a.len() && (#[trigger] a[i]).locator() == Some(l);
            assert(a.contains(a[i]));
            let j = choose|j: int| 0 <= j < b.len() && b[j] == a[i];
            assert(b[j].locator() == Some(l));
        }
        if locators_of(b).contains(l) {
            let i = choose|i: int| 0 <= i < b.len() && (#[trigger] b[i]).locator() == Some(l);
            assert(b.contains(b[i]));
            let j = choose|j: int| 0 <= j < a.len() && a[j] == b[i];
            assert(a[j].locator() == Some(l));
        }
    }
    assert forall|l: Seq<char>| auxiliary_of(a).contains(l) <==> auxiliary_of(b).contains(l) by {
        if auxiliary_of(a).contains(l) {
            let i = choose|i: int| 0 <= i < a.len() && (#[trigger] a[i]).auxiliary().contains(l);
            assert(a.contains(a[i]));
            let j = choose|j: int| 0 <= j < b.len() && b[j] == a[i];
            assert(b[j].auxiliary().contains(l));
        }
        if auxiliary_of(b).contains(l) {
            let i = choose|i: int| 0 <= i < b.len() && (#[trigger] b[i]).auxiliary().contains(l);
            assert(b.contains(b[i]));
            let j = choose|j: int| 0 <= j < a.len() && a[j] == b[i];
            assert(a[j].auxiliary().contains(l));
        }
    }
    assert(locators_of(a) =~= locators_of(b));
    assert(auxiliary_of(a) =~= auxiliary_of(b));
}

/// Accumulation does not depend on the order of the decisions: whatever
/// two orderings of the same decisions accumulate to is the same pair of
/// sequences.
pub proof fn law_accumulate_order_independent(
    a: Seq<DecisionModel>,
    b: Seq<DecisionModel>,
    out_a: AccumulatedModel,
    out_b: AccumulatedModel,
)
    requires
        a.to_multiset() == b.to_multiset(),
        accumulates(a, out_a),
        accumulates(b, out_b),
    ensures
        out_a == out_b,
{
    a.to_multiset_ensures();
    b.to_multiset_ensures();
    assert forall|d: DecisionModel| a.contains(d) <==> b.contains(d) by {
        assert(a.contains(d) <==> a.to_multiset().count(d) > 0);
        assert(b.contains(d) <==> b.to_multiset().count(d) > 0);
    }
    lemma_same_decisions_same_lines(a, b);
    lemma_ordered_form_unique(out_a.fetch_locators, out_b.fetch_locators);
    lemma_ordered_form_unique(out_a.auxiliary_lines, out_b.auxiliary_lines);
}

} // verus!
