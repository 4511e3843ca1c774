//! Ordered sets of lines: strictly ascending sequences of texts.

use vstd::prelude::*;
use crate::text::{
    lemma_precedes_irreflexive,
    lemma_precedes_transitive,
    order_of,
    precedes,
    texts,
    Order,
};

verus! {

/// Every line comes strictly before each later one, so the sequence is
/// sorted and holds no line twice.
pub open spec fn ascending(lines: Seq<Seq<char>>) -> bool {
    forall|i: int, j: int| 0 <= i < j < lines.len() ==> precedes(lines[i], lines[j])
}

/// `lines` is the ordered form of the set `contents`.
pub open spec fn orders(lines: Seq<Seq<char>>, contents: Set<Seq<char>>) -> bool {
    ascending(lines) && lines.to_set() == contents
}

/// An ascending sequence holds no line twice.
pub proof fn lemma_ascending_no_duplicates(lines: Seq<Seq<char>>)
    requires
        ascending(lines),
    ensures
        lines.no_duplicates(),
{
    assert forall|i: int, j: int|
        0 <= i < lines.len() && 0 <= j < lines.len() && i != j implies lines[i] != lines[j] by {
        lemma_precedes_irreflexive(lines[i]);
        if i < j {
            assert(precedes(lines[i], lines[j]));
        } else {
            assert(precedes(lines[j], lines[i]));
        }
    }
}

/// A set of lines has at most one ordered form: two ascending sequences
/// that hold the same lines are the same sequence.
pub proof fn lemma_ordered_form_unique(a: Seq<Seq<char>>, b: Seq<Seq<char>>)
    requires
        ascending(a),
        ascending(b),
        a.to_set() == b.to_set(),
    ensures
        a == b,
    decreases a.len(),
{
    if a.len() == 0 {
        if b.len() > 0 {
            assert(b.contains(b[0]));
            assert(b.to_set().contains(b[0]));
            assert(a.contains(b[0]));
        }
        assert(a =~= b);
    } else {
        assert(a.contains(a[0]));
        assert(a.to_set().contains(a[0]));
        assert(b.contains(a[0]));
        let j = choose|j: int| 0 <= j < b.len() && b[j] == a[0];
        assert(b.contains(b[0]));
        assert(b.to_set().contains(b[0]));
        assert(a.contains(b[0]));
        let i = choose|i: int| 0 <= i < a.len() && a[i] == b[0];
        if a[0] != b[0] {
            lemma_precedes_transitive(a[0], a[i], b[j]);
            lemma_precedes_irreflexive(a[0]);
        }
        let ta = a.drop_first();
        let tb = b.drop_first();
        assert forall|l: Seq<char>| ta.contains(l) <==> tb.contains(l) by {
            if ta.contains(l) {
                let p = choose|p: int| 0 <= p < ta.len() && ta[p] == l;
                assert(a[p + 1] == l);
                lemma_precedes_irreflexive(l);
                assert(a.contains(l));
                assert(a.to_set().contains(l));
                assert(b.contains(l));
                let q = choose|q: int| 0 <= q < b.len() && b[q] == l;
                assert(tb[q - 1] == l);
            }
            if tb.contains(l) {
                let p = choose|p: int| 0 <= p < tb.len() && tb[p] == l;
                assert(b[p + 1] == l);
                lemma_precedes_irreflexive(l);
                assert(b.contains(l));
                assert(b.to_set().contains(l));
                assert(a.contains(l));
                let q = choose|q: int| 0 <= q < a.len() && a[q] == l;
                assert(ta[q - 1] == l);
            }
        }
        assert(ta.to_set() =~= tb.to_set());
        assert forall|i: int, j: int| 0 <= i < j < ta.len() implies precedes(ta[i], ta[j]) by {
            assert(precedes(a[i + 1], a[j + 1]));
        }
        assert forall|i: int, j: int| 0 <= i < j < tb.len() implies precedes(tb[i], tb[j]) by {
            assert(precedes(b[i + 1], b[j + 1]));
        }
        lemma_ordered_form_unique(ta, tb);
        assert(a =~= seq![a[0]] + ta);
        assert(b =~= seq![b[0]] + tb);
    }
}

/// An ordered set of lines: kept sorted, each line once.
pub struct LineSet {
    lines: Vec<String>,
}

impl View for LineSet {
    type V = Seq<Seq<char>>;

    /// The lines of the set, in ascending order.
    closed spec fn view(&self) -> Seq<Seq<char>> {
        texts(self.lines@)
    }
}

impl LineSet {
    #[verifier::type_invariant]
    spec fn sorted(self) -> bool {
        ascending(texts(self.lines@))
    }

    /// The empty set.
    pub fn new() -> (out: LineSet)
        ensures
            out@ == Seq::<Seq<char>>::empty(),
    {
        let out = LineSet { lines: Vec::new() };
        proof {
            assert(out@ =~= Seq::<Seq<char>>::empty());
        }
        out
    }

    /// The number of lines in the set.
    pub fn len(&self) -> (out: usize)
        ensures
            out == self@.len(),
    {
        self.lines.len()
    }

    /// The set with `line` put in, at the place that keeps the order; a
    /// line that is already there is not added again.
    pub fn with_line(self, line: String) -> (out: LineSet)
        ensures
            ascending(out@),
            out@.to_set() == self@.to_set().insert(line@),
    {
        proof {
            use_type_invariant(&self);
        }
        let mut lines = self.lines;
        insert_line(&mut lines, line);
        LineSet { lines }
    }

    /// Hands out the lines, in ascending order.
    pub fn into_lines(self) -> (out: Vec<String>)
        ensures
            texts(out@) == self@,
            ascending(self@),
    {
        proof {
            use_type_invariant(&self);
        }
        self.lines
    }
}

/// Puts `line` into the ascending sequence `lines`, at the place that keeps
/// the order; a line that is already there is not added again.
fn insert_line(lines: &mut Vec<String>, line: String)
    requires
        ascending(texts(old(lines)@)),
    ensures
        ascending(texts(final(lines)@)),
        texts(final(lines)@).to_set() == texts(old(lines)@).to_set().insert(line@),
{
    let ghost before = texts(lines@);
    let mut i: usize = 0;
    let mut found: bool = false;
    while i < lines.len() && !found
        invariant
            lines@ == old(lines)@,
            before == texts(lines@),
            i <= lines.len(),
            forall|j: int| 0 <= j < i ==> precedes(#[trigger] before[j], line@),
            found ==> i < lines.len() && !precedes(before[i as int], line@),
        decreases lines.len() - i + (if found { 0int } else { 1int }),
    {
        match order_of(lines[i].as_str(), line.as_str()) {
            Order::Before => {
                i += 1;
            },
            _ => {
                found = true;
            },
        }
    }
    if found {
        match order_of(lines[i].as_str(), line.as_str()) {
            Order::Same => {
                proof {
                    assert(before.contains(line@));
                    assert(before.to_set().insert(line@) =~= before.to_set());
                }
                return ;
            },
            _ => {},
        }
    }
    lines.insert(i, line);
    proof {
        let after = texts(lines@);
        let at = i as int;
        old(lines)@.insert_ensures(at, line);
        assert(after.len() == before.len() + 1);
        assert(after[at] == line@);
        assert forall|j: int| 0 <= j < at implies after[j] == before[j] by {}
        assert forall|j: int| at < j < after.len() implies after[j] == before[j - 1] by {
            assert(lines@[(j - 1) + 1] == old(lines)@[j - 1]);
        }
        assert forall|p: int, q: int| 0 <= p < q < after.len() implies precedes(
            after[p],
            after[q],
        ) by {
            if q < at {
            } else if q == at {
            } else if p < at {
                assert(precedes(before[p], before[q - 1]));
            } else if p == at {
                assert(precedes(line@, before[at]));
                if q - 1 > at {
                    assert(precedes(before[at], before[q - 1]));
                    lemma_precedes_transitive(line@, before[at], before[q - 1]);
                }
            } else {
                assert(precedes(before[p - 1], before[q - 1]));
            }
        }
        assert forall|l: Seq<char>| after.contains(l) <==> (before.contains(l) || l == line@) by {
            if after.contains(l) {
                let p = choose|p: int| 0 <= p < after.len() && after[p] == l;
                if p < at {
                    assert(before[p] == l);
                } else if p > at {
                    assert(before[p - 1] == l);
                }
            }
            if before.contains(l) {
                let p = choose|p: int| 0 <= p < before.len() && before[p] == l;
                if p < at {
                    assert(after[p] == l);
                } else {
                    assert(after[p + 1] == l);
                }
            }
            if l == line@ {
                assert(after[at] == l);
            }
        }
        assert(after.to_set() =~= before.to_set().insert(line@));
    }
}

} // verus!
