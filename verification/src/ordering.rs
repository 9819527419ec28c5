//! The reordering stage between the parallel map and the ordered fold.
//!
//! Proving tasks complete in any order. Each result carries the index of the
//! transaction it belongs to, and the fold takes the results by that index.
use vstd::prelude::*;

verus! {

/// The completions carry each index below their number exactly once.
pub open spec fn well_tagged<T>(completions: Seq<(usize, T)>) -> bool {
    &&& forall|k: int|
        0 <= k < completions.len() ==> (#[trigger] completions[k]).0 < completions.len()
    &&& forall|j: int, k: int|
        0 <= j < k < completions.len() ==> (#[trigger] completions[j]).0 != (
        #[trigger] completions[k]).0
    &&& forall|i: int| 0 <= i < completions.len() ==> #[trigger] tagged(completions, i)
}

/// Some completion carries the index `index`.
pub open spec fn tagged<T>(completions: Seq<(usize, T)>, index: int) -> bool {
    exists|k: int| tagged_at(completions, k, index)
}

/// Some completion at place `from` or later carries the index `index`.
pub open spec fn tagged_from<T>(completions: Seq<(usize, T)>, from: int, index: int) -> bool {
    exists|k: int| from <= k && tagged_at(completions, k, index)
}

/// The completion at place `k` carries the index `index`.
pub open spec fn tagged_at<T>(completions: Seq<(usize, T)>, k: int, index: int) -> bool {
    0 <= k < completions.len() && completions[k].0 == index
}

/// The result that carries the index `index`.
pub open spec fn result_of<T>(completions: Seq<(usize, T)>, index: int) -> T {
    completions[choose|k: int| tagged_at(completions, k, index)].1
}

/// The results by index: what the fold receives.
pub open spec fn in_order<T>(completions: Seq<(usize, T)>) -> Seq<T> {
    Seq::new(completions.len(), |i: int| result_of(completions, i))
}

/// Among well-tagged completions the one at place `k` is the result of its
/// own index.
pub proof fn lemma_result_of_place<T>(completions: Seq<(usize, T)>, k: int)
    requires
        well_tagged(completions),
        0 <= k < completions.len(),
    ensures
        result_of(completions, completions[k].0 as int) == completions[k].1,
{
    let index = completions[k].0 as int;
    assert(tagged_at(completions, k, index));
    let c = choose|c: int| tagged_at(completions, c, index);
    assert(tagged_at(completions, c, index));
    if c < k {
        assert(completions[c].0 != completions[k].0);
    } else if k < c {
        assert(completions[k].0 != completions[c].0);
    }
}

/// The order in which the tasks completed does not reach the fold: two runs
/// that completed the same indexed results, in whatever order each, hand the
/// fold the same sequence.
pub proof fn lemma_completion_order_is_irrelevant<T>(
    first: Seq<(usize, T)>,
    second: Seq<(usize, T)>,
)
    requires
        well_tagged(first),
        well_tagged(second),
        first.len() == second.len(),
        forall|k: int| 0 <= k < first.len() ==> second.contains(#[trigger] first[k]),
    ensures
        in_order(first) == in_order(second),
{
    assert forall|i: int| 0 <= i < first.len() implies result_of(first, i) == result_of(
        second,
        i,
    ) by {
        assert(tagged(first, i));
        let k = choose|k: int| tagged_at(first, k, i);
        lemma_result_of_place(first, k);
        assert(second.contains(first[k]));
        let j = choose|j: int| 0 <= j < second.len() && second[j] == first[k];
        lemma_result_of_place(second, j);
    }
    assert(in_order(first) =~= in_order(second));
}

/// Puts completed results into the order of their indices. `None` where the
/// indices are not exactly the numbers below the count, each once.
#[verifier::loop_isolation(false)]
pub fn in_transaction_order<T>(completions: Vec<(usize, T)>) -> (r: Option<Vec<T>>)
    ensures
        r.is_some() <==> well_tagged(completions@),
        r matches Some(ordered) ==> ordered@ == in_order(completions@),
{
    let ghost all = completions@;
    let count = completions.len();
    let mut rest = completions;
    let mut slots: Vec<Option<T>> = Vec::new();
    while slots.len() < count
        invariant
            slots.len() <= count,
            forall|i: int| 0 <= i < slots.len() ==> (#[trigger] slots[i]).is_none(),
        decreases count - slots.len(),
    {
        slots.push(None);
    }
    while rest.len() > 0
        invariant
            all.len() == count,
            slots.len() == count,
            rest.len() <= count,
            rest@ == all.subrange(0, rest.len() as int),
            forall|k: int|
                rest.len() <= k < count ==> (#[trigger] all[k]).0 < count && slots[all[k].0 as int]
                    == Some(all[k].1),
            forall|j: int, k: int|
                rest.len() <= j < k < count ==> (#[trigger] all[j]).0 != (#[trigger] all[k]).0,
            forall|i: int|
                0 <= i < count && (#[trigger] slots[i]).is_some() ==> tagged_from(
                    all,
                    rest.len() as int,
                    i,
                ),
        decreases rest.len(),
    {
        let ghost place = rest.len() - 1;
        let (index, item) = rest.pop().unwrap();
        assert(all[place] == (index, item));
        if index >= count {
            return None;
        }
        if slots[index].is_some() {
            proof {
                assert(tagged_from(all, place + 1, index as int));
                let k = choose|k: int| place + 1 <= k && tagged_at(all, k, index as int);
                assert(all[place].0 == all[k].0);
            }
            return None;
        }
        let ghost before = slots@;
        slots.set(index, Some(item));
        proof {
            assert(tagged_at(all, place, index as int));
            assert forall|k: int| rest.len() <= k < count implies (#[trigger] all[k]).0 < count
                && slots[all[k].0 as int] == Some(all[k].1) by {
                if k > place {
                    assert(before[all[k].0 as int] == Some(all[k].1));
                    assert(all[k].0 != index);
                }
            }
            assert forall|j: int, k: int| rest.len() <= j < k < count implies (#[trigger] all[j]).0
                != (#[trigger] all[k]).0 by {
                if j == place {
                    assert(before[all[k].0 as int] == Some(all[k].1));
                }
            }
            assert forall|i: int| 0 <= i < count && (#[trigger] slots[i]).is_some() implies tagged_from(
                all,
                rest.len() as int,
                i,
            ) by {
                if i == index {
                    assert(tagged_at(all, place, i));
                } else {
                    assert(before[i].is_some());
                    assert(tagged_from(all, place + 1, i));
                    let k = choose|k: int| place + 1 <= k && tagged_at(all, k, i);
                    assert(tagged_at(all, k, i));
                }
            }
        }
    }
    let mut ordered: Vec<T> = Vec::new();
    while slots.len() > 0
        invariant
            all.len() == count,
            slots.len() + ordered.len() == count,
            forall|k: int|
                0 <= k < count ==> (#[trigger] all[k]).0 < count && (all[k].0 < slots.len()
                    ==> slots[all[k].0 as int] == Some(all[k].1)) && (all[k].0 >= slots.len()
                    ==> ordered[all[k].0 - slots.len()] == all[k].1),
            forall|j: int, k: int| 0 <= j < k < count ==> (#[trigger] all[j]).0 != (#[trigger] all[k]).0,
            forall|i: int|
                0 <= i < slots.len() && (#[trigger] slots[i]).is_some() ==> tagged_from(all, 0, i),
            forall|i: int| slots.len() <= i < count ==> #[trigger] tagged(all, i),
        decreases slots.len(),
    {
        let ghost index = slots.len() - 1;
        let ghost slots_before = slots@;
        let ghost ordered_before = ordered@;
        match slots.pop().unwrap() {
            None => {
                proof {
                    if well_tagged(all) {
                        assert(tagged(all, index));
                        let k = choose|k: int| tagged_at(all, k, index);
                        assert(tagged_at(all, k, index));
                        assert(slots_before[all[k].0 as int] == Some(all[k].1));
                    }
                }
                return None;
            },
            Some(item) => {
                ordered.insert(0, item);
                proof {
                    assert(slots_before[index].is_some());
                    assert forall|k: int| 0 <= k < count implies (#[trigger] all[k]).0 < count && (
                    all[k].0 < slots.len() ==> slots[all[k].0 as int] == Some(all[k].1)) && (
                    all[k].0 >= slots.len() ==> ordered[all[k].0 - slots.len()] == all[k].1) by {
                        if all[k].0 == index {
                            assert(slots_before[all[k].0 as int] == Some(all[k].1));
                        } else if all[k].0 > index {
                            assert(ordered_before[all[k].0 - slots_before.len()] == all[k].1);
                        }
                    }
                    assert(tagged_from(all, 0, index));
                    let k = choose|k: int| 0 <= k && tagged_at(all, k, index);
                    assert(tagged_at(all, k, index));
                    assert(tagged(all, index));
                }
            },
        }
    }
    proof {
        assert(well_tagged(all));
        assert forall|i: int| 0 <= i < count implies ordered[i] == result_of(all, i) by {
            assert(tagged(all, i));
            let k = choose|k: int| tagged_at(all, k, i);
            lemma_result_of_place(all, k);
        }
        assert(ordered@ =~= in_order(all));
    }
    Some(ordered)
}

} // verus!
