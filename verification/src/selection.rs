//! Choices over a health report.
//!
//! A health report lists, slot by slot, what the connections of a pool
//! answered when asked whether they are broken: `true` stands for broken.

use vstd::arithmetic::div_mod::{lemma_mod_bound, lemma_mod_equivalence, lemma_small_mod};
use vstd::prelude::*;

verus! {

/// Every slot of the report is broken (so also: the report is empty).
pub open spec fn all_broken(report: Seq<bool>) -> bool {
    forall|i: int| 0 <= i < report.len() ==> report[i]
}

/// Every slot of the report is healthy.
pub open spec fn all_healthy(report: Seq<bool>) -> bool {
    forall|i: int| 0 <= i < report.len() ==> !report[i]
}

/// The number of steps from slot `from` forward to slot `to` in a ring of
/// `n` slots.
pub open spec fn steps_forward(from: int, to: int, n: int) -> int {
    if to >= from {
        to - from
    } else {
        to + n - from
    }
}

/// Slot `k` is the one that ticket number `ticket` selects: it is healthy,
/// and walking forward from slot `ticket % len`, wrapping at the end, no
/// healthy slot comes before it.
pub open spec fn selects(report: Seq<bool>, ticket: int, k: int) -> bool {
    let n = report.len() as int;
    let start = ticket % n;
    &&& 0 <= k < n
    &&& !report[k]
    &&& forall|j: int|
        0 <= j < n && steps_forward(start, j, n) < steps_forward(start, k, n) ==> report[j]
}

/// Selects a slot for the caller that drew `ticket` from the pool's cursor:
/// the first healthy slot at or after `ticket % len`, wrapping at the end.
/// There is none exactly when every slot is broken.
pub fn select_index(report: &Vec<bool>, ticket: usize) -> (choice: Option<usize>)
    ensures
        choice matches Some(k) ==> selects(report@, ticket as int, k as int),
        choice is None <==> all_broken(report@),
{
    let n: usize = report.len();
    if n == 0 {
        return None;
    }
    let first: usize = ticket % n;
    let mut index: usize = first;
    loop
        invariant
            n == report.len(),
            first == ticket % n,
            first < n,
            index < n,
            forall|j: int|
                0 <= j < n && steps_forward(first as int, j, n as int) < steps_forward(
                    first as int,
                    index as int,
                    n as int,
                ) ==> report[j],
        decreases n - steps_forward(first as int, index as int, n as int),
    {
        if !report[index] {
            return Some(index);
        }
        index = if index + 1 == n {
            0
        } else {
            index + 1
        };
        if index == first {
            return None;
        }
    }
}

/// A ticket selects at most one slot.
pub proof fn lemma_selection_unique(report: Seq<bool>, ticket: int, k1: int, k2: int)
    requires
        selects(report, ticket, k1),
        selects(report, ticket, k2),
    ensures
        k1 == k2,
{
    lemma_mod_bound(ticket, report.len() as int);
}

/// A ticket selects a slot exactly when some slot is healthy.
pub proof fn lemma_selection_exists(report: Seq<bool>, ticket: int)
    ensures
        (exists|k: int| selects(report, ticket, k)) <==> !all_broken(report),
{
    let n = report.len() as int;
    if !all_broken(report) {
        let healthy = choose|i: int| 0 <= i < report.len() && !report[i];
        lemma_mod_bound(ticket, n);
        let k = nearest_healthy(report, ticket % n, healthy);
        assert(selects(report, ticket, k));
    } else {
        assert forall|k: int| !selects(report, ticket, k) by {}
    }
}

/// Among the healthy slots that are no farther from `start` than the
/// healthy slot `bound`, one is nearest.
proof fn nearest_healthy(report: Seq<bool>, start: int, bound: int) -> (k: int)
    requires
        0 <= start < report.len(),
        0 <= bound < report.len(),
        !report[bound],
    ensures
        0 <= k < report.len(),
        !report[k],
        forall|j: int|
            0 <= j < report.len() && steps_forward(start, j, report.len() as int) < steps_forward(
                start,
                k,
                report.len() as int,
            ) ==> report[j],
    decreases steps_forward(start, bound, report.len() as int),
{
    let n = report.len() as int;
    if exists|j: int| 0 <= j < n && steps_forward(start, j, n) < steps_forward(start, bound, n)
        && !report[j] {
        let nearer = choose|j: int|
            0 <= j < n && steps_forward(start, j, n) < steps_forward(start, bound, n)
                && !report[j];
        nearest_healthy(report, start, nearer)
    } else {
        bound
    }
}

/// Round robin: while every connection is healthy, consecutive tickets
/// select the slots in turn. A ticket selects the slot of its number modulo
/// the length, and two different tickets out of any `len` consecutive ones
/// never select the same slot.
pub proof fn lemma_round_robin(report: Seq<bool>, first: int, second: int)
    requires
        all_healthy(report),
        0 <= first < second < first + report.len(),
    ensures
        selects(report, first, first % (report.len() as int)),
        selects(report, second, second % (report.len() as int)),
        forall|k1: int, k2: int|
            #![trigger selects(report, first, k1), selects(report, second, k2)]
            selects(report, first, k1) && selects(report, second, k2) ==> k1 != k2,
{
    let n = report.len() as int;
    lemma_mod_bound(first, n);
    lemma_mod_bound(second, n);
    assert(first % n != second % n) by {
        lemma_mod_equivalence(second, first, n);
        lemma_small_mod((second - first) as nat, n as nat);
    }
    assert forall|k1: int, k2: int|
        #![trigger selects(report, first, k1), selects(report, second, k2)]
        selects(report, first, k1) && selects(report, second, k2) implies k1 != k2 by {
        lemma_selection_unique(report, first, k1, first % n);
        lemma_selection_unique(report, second, k2, second % n);
    }
}

/// Whether at least one slot of the report is healthy.
pub fn any_up(report: &Vec<bool>) -> (up: bool)
    ensures
        up == !all_broken(report@),
{
    let mut i: usize = 0;
    while i < report.len()
        invariant
            i <= report.len(),
            forall|j: int| 0 <= j < i ==> report[j],
        decreases report.len() - i,
    {
        if !report[i] {
            return true;
        }
        i += 1;
    }
    false
}

/// Slot `i` is the first broken slot at or after `from`.
pub open spec fn is_first_broken(report: Seq<bool>, from: int, i: int) -> bool {
    &&& from <= i < report.len()
    &&& report[i]
    &&& forall|j: int| from <= j < i ==> !report[j]
}

/// No slot at or after `from` is broken.
pub open spec fn healthy_from(report: Seq<bool>, from: int) -> bool {
    forall|j: int| from <= j < report.len() ==> !report[j]
}

/// Finds the first broken slot at or after `from`.
pub fn first_broken(report: &Vec<bool>, from: usize) -> (found: Option<usize>)
    ensures
        found matches Some(i) ==> is_first_broken(report@, from as int, i as int),
        found is None <==> healthy_from(report@, from as int),
{
    let mut i: usize = from;
    while i < report.len()
        invariant
            from <= i,
            forall|j: int| from <= j < i && j < report.len() ==> !report[j],
        decreases report.len() - i,
    {
        if report[i] {
            return Some(i);
        }
        i += 1;
    }
    None
}

/// `slots` lists the healthy slots of the report, each once, in rising
/// order.
pub open spec fn lists_healthy(report: Seq<bool>, slots: Seq<usize>) -> bool {
    &&& forall|m: int| 0 <= m < slots.len() ==> slots[m] < report.len() && !report[slots[m] as int]
    &&& forall|m1: int, m2: int| 0 <= m1 < m2 < slots.len() ==> slots[m1] < slots[m2]
    &&& forall|i: int| 0 <= i < report.len() && !report[i] ==> slots.contains(i as usize)
}

/// Lists the healthy slots of the report in rising order.
pub fn healthy_indices(report: &Vec<bool>) -> (slots: Vec<usize>)
    ensures
        lists_healthy(report@, slots@),
{
    let mut slots: Vec<usize> = Vec::new();
    let mut i: usize = 0;
    while i < report.len()
        invariant
            i <= report.len(),
            forall|m: int| 0 <= m < slots.len() ==> slots[m] < i && !report[slots[m] as int],
            forall|m1: int, m2: int| 0 <= m1 < m2 < slots.len() ==> slots[m1] < slots[m2],
            forall|j: int| 0 <= j < i && !report[j] ==> slots@.contains(j as usize),
        decreases report.len() - i,
    {
        if !report[i] {
            let ghost before = slots@;
            slots.push(i);
            assert(slots@[before.len() as int] == i);
            assert forall|j: int| 0 <= j < i + 1 && !report[j] implies slots@.contains(
                j as usize,
            ) by {
                if j < i {
                    let m = choose|m: int| 0 <= m < before.len() && before[m] == j as usize;
                    assert(slots@[m] == j as usize);
                }
            }
        }
        i += 1;
    }
    slots
}

/// The list of healthy slots is determined by the report.
pub proof fn lemma_healthy_list_unique(report: Seq<bool>, s1: Seq<usize>, s2: Seq<usize>)
    requires
        lists_healthy(report, s1),
        lists_healthy(report, s2),
    ensures
        s1 == s2,
    decreases s1.len(),
{
    if s1.len() == 0 {
        if s2.len() > 0 {
            assert(s1.contains(s2[0]));
        }
        assert(s1 =~= s2);
    } else if s2.len() == 0 {
        assert(s2.contains(s1[0]));
    } else {
        let last1 = s1.last();
        let last2 = s2.last();
        assert(s2.contains(last1));
        assert(s1.contains(last2));
        let p = choose|p: int| 0 <= p < s2.len() && s2[p] == last1;
        let q = choose|q: int| 0 <= q < s1.len() && s1[q] == last2;
        assert(last1 == last2);
        let cut = last1 as int;
        let shorter = report.take(cut);
        assert forall|i: int| 0 <= i < shorter.len() && !shorter[i] implies s1.drop_last().contains(
            i as usize,
        ) by {
            let m = choose|m: int| 0 <= m < s1.len() && s1[m] == i as usize;
            assert(s1.drop_last()[m] == i as usize);
        }
        assert forall|i: int| 0 <= i < shorter.len() && !shorter[i] implies s2.drop_last().contains(
            i as usize,
        ) by {
            let m = choose|m: int| 0 <= m < s2.len() && s2[m] == i as usize;
            assert(s2.drop_last()[m] == i as usize);
        }
        lemma_healthy_list_unique(shorter, s1.drop_last(), s2.drop_last());
        assert(s1 =~= s1.drop_last().push(last1));
        assert(s2 =~= s2.drop_last().push(last2));
    }
}

} // verus!
