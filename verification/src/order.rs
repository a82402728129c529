use vstd::prelude::*;

use crate::text::{lemma_lex_less_asymmetric, lemma_lex_less_transitive, lex_less, text_less};

verus! {

/// What an item is ordered by: larger `major` first, then larger `minor`,
/// then the smaller `label`.
#[derive(Debug, PartialEq, Eq)]
pub struct RankKey {
    pub major: i64,
    pub minor: i64,
    pub label: String,
}

/// Mathematical model of [`RankKey`].
pub struct RankKeyModel {
    pub major: i64,
    pub minor: i64,
    pub label: Seq<char>,
}

impl View for RankKey {
    type V = RankKeyModel;

    open spec fn view(&self) -> RankKeyModel {
        RankKeyModel { major: self.major, minor: self.minor, label: self.label@ }
    }
}

impl DeepView for RankKey {
    type V = RankKeyModel;

    open spec fn deep_view(&self) -> RankKeyModel {
        self@
    }
}

/// Whether an item with key `a` comes strictly before one with key `b`.
pub open spec fn precedes(a: RankKeyModel, b: RankKeyModel) -> bool {
    a.major > b.major || (a.major == b.major && (a.minor > b.minor || (a.minor == b.minor && lex_less(
        a.label,
        b.label,
    ))))
}

/// The first place of `order` whose key comes strictly after the key of
/// `idx`, or the length of `order` where there is none.
pub open spec fn slot(order: Seq<usize>, keys: Seq<RankKeyModel>, idx: usize) -> int
    decreases order.len(),
{
    if order.len() == 0 || precedes(keys[idx as int], keys[order[0] as int]) {
        0
    } else {
        1 + slot(order.drop_first(), keys, idx)
    }
}

/// `order` with `idx` put at its slot.
pub open spec fn placed(order: Seq<usize>, keys: Seq<RankKeyModel>, idx: usize) -> Seq<usize> {
    order.insert(slot(order, keys, idx), idx)
}

/// The first `n` indices in the order of their keys; indices with equal keys
/// stay in their own order.
pub open spec fn ranking_of_first(keys: Seq<RankKeyModel>, n: nat) -> Seq<usize>
    decreases n,
{
    if n == 0 {
        Seq::empty()
    } else {
        placed(ranking_of_first(keys, (n - 1) as nat), keys, (n - 1) as usize)
    }
}

/// The indices of `keys` in the order of their keys.
pub open spec fn ranking(keys: Seq<RankKeyModel>) -> Seq<usize> {
    ranking_of_first(keys, keys.len())
}

/// No item of `order` comes strictly before one that stands ahead of it.
pub open spec fn in_order(order: Seq<usize>, keys: Seq<RankKeyModel>) -> bool {
    forall|i: int, j: int|
        0 <= i < j < order.len() ==> !precedes(keys[#[trigger] order[j] as int], keys[#[trigger] order[i] as int])
}

/// `order` holds each of the first `n` indices once and nothing else.
pub open spec fn lists_first(order: Seq<usize>, n: nat) -> bool {
    &&& order.len() == n
    &&& forall|i: int| 0 <= i < order.len() ==> (#[trigger] order[i]) < n
    &&& order.no_duplicates()
}

/// Of two keys at most one comes strictly before the other.
pub proof fn lemma_precedes_asymmetric(a: RankKeyModel, b: RankKeyModel)
    requires
        precedes(a, b),
    ensures
        !precedes(b, a),
{
    if a.major == b.major && a.minor == b.minor {
        lemma_lex_less_asymmetric(a.label, b.label);
    }
}

/// If `a` comes before `b` and `c` does not come before `b`, then `c` does
/// not come before `a`.
pub proof fn lemma_precedes_blocks(a: RankKeyModel, b: RankKeyModel, c: RankKeyModel)
    requires
        precedes(a, b),
        !precedes(c, b),
    ensures
        !precedes(c, a),
{
    if precedes(c, a) {
        if c.major == a.major && c.minor == a.minor && a.major == b.major && a.minor == b.minor {
            lemma_lex_less_transitive(c.label, a.label, b.label);
        }
    }
}

/// What the slot is: no key before it comes strictly after that of `idx`,
/// and the key at it does.
pub proof fn lemma_slot(order: Seq<usize>, keys: Seq<RankKeyModel>, idx: usize)
    ensures
        0 <= slot(order, keys, idx) <= order.len(),
        forall|j: int|
            0 <= j < slot(order, keys, idx) ==> !precedes(keys[idx as int], keys[#[trigger] order[j] as int]),
        slot(order, keys, idx) < order.len() ==> precedes(
            keys[idx as int],
            keys[order[slot(order, keys, idx)] as int],
        ),
    decreases order.len(),
{
    if !(order.len() == 0 || precedes(keys[idx as int], keys[order[0] as int])) {
        let rest = order.drop_first();
        lemma_slot(rest, keys, idx);
        let at = slot(order, keys, idx);
        assert forall|j: int| 0 <= j < at implies !precedes(keys[idx as int], keys[#[trigger] order[j] as int]) by {
            if j > 0 {
                assert(order[j] == rest[j - 1]);
            }
        }
        if at < order.len() {
            assert(order[at] == rest[at - 1]);
        }
    }
}

/// A place with these two properties is the slot.
pub proof fn lemma_placed_at(order: Seq<usize>, keys: Seq<RankKeyModel>, idx: usize, at: int)
    requires
        0 <= at <= order.len(),
        forall|j: int| 0 <= j < at ==> !precedes(keys[idx as int], keys[#[trigger] order[j] as int]),
        at < order.len() ==> precedes(keys[idx as int], keys[order[at] as int]),
    ensures
        slot(order, keys, idx) == at,
        placed(order, keys, idx) == order.insert(at, idx),
{
    lemma_slot(order, keys, idx);
    let found = slot(order, keys, idx);
    if found < at {
        assert(!precedes(keys[idx as int], keys[order[found] as int]));
    } else if at < found {
        assert(!precedes(keys[idx as int], keys[order[at] as int]));
    }
}

/// The ranking lists every index once and is in order.
pub proof fn lemma_ranking_of_first(keys: Seq<RankKeyModel>, n: nat)
    requires
        n <= keys.len(),
        n <= usize::MAX,
    ensures
        lists_first(ranking_of_first(keys, n), n),
        in_order(ranking_of_first(keys, n), keys),
    decreases n,
{
    if n > 0 {
        let before = ranking_of_first(keys, (n - 1) as nat);
        lemma_ranking_of_first(keys, (n - 1) as nat);
        let idx = (n - 1) as usize;
        let at = slot(before, keys, idx);
        lemma_slot(before, keys, idx);
        let after = before.insert(at, idx);
        assert forall|i: int| 0 <= i < after.len() implies (#[trigger] after[i]) < n by {
            if i < at {
                assert(after[i] == before[i]);
            } else if i > at {
                assert(after[i] == before[i - 1]);
            }
        }
        assert forall|i: int, j: int| 0 <= i < j < after.len() implies after[i] != after[j] by {
            let i0 = if i < at { i } else { i - 1 };
            let j0 = if j < at { j } else { j - 1 };
            if i != at && j != at {
                assert(after[i] == before[i0]);
                assert(after[j] == before[j0]);
            } else if i == at {
                assert(after[j] == before[j0]);
            } else {
                assert(after[i] == before[i0]);
            }
        }
        assert forall|i: int, j: int| 0 <= i < j < after.len() implies !precedes(
            keys[#[trigger] after[j] as int],
            keys[#[trigger] after[i] as int],
        ) by {
            let i0 = if i < at { i } else { i - 1 };
            let j0 = if j < at { j } else { j - 1 };
            if i != at && j != at {
                assert(after[i] == before[i0]);
                assert(after[j] == before[j0]);
            } else if i == at {
                assert(after[j] == before[j0]);
                assert(after[i] == idx);
                // idx comes before before[at]; before[j0] does not come before before[at]
                if j0 == at {
                    lemma_precedes_asymmetric(keys[idx as int], keys[before[at] as int]);
                } else {
                    assert(!precedes(keys[before[j0] as int], keys[before[at] as int]));
                    lemma_precedes_blocks(keys[idx as int], keys[before[at] as int], keys[before[j0] as int]);
                }
            } else {
                assert(after[i] == before[i0]);
                assert(after[j] == idx);
            }
        }
    }
}

/// The ranking of `keys` lists every index once, in the order of the keys.
pub proof fn lemma_ranking(keys: Seq<RankKeyModel>)
    requires
        keys.len() <= usize::MAX,
    ensures
        lists_first(ranking(keys), keys.len()),
        in_order(ranking(keys), keys),
{
    lemma_ranking_of_first(keys, keys.len());
}

/// Whether `a` comes strictly before `b`.
pub fn key_precedes(a: &RankKey, b: &RankKey) -> (before: bool)
    ensures
        before == precedes(a@, b@),
{
    a.major > b.major || (a.major == b.major && (a.minor > b.minor || (a.minor == b.minor && text_less(
        a.label.as_str(),
        b.label.as_str(),
    ))))
}

/// The indices of `keys` in the order of their keys; equal keys keep their
/// own order.
pub fn rank_order(keys: &Vec<RankKey>) -> (order: Vec<usize>)
    ensures
        order@ == ranking(keys.deep_view()),
        lists_first(order@, keys@.len()),
        in_order(order@, keys.deep_view()),
{
    let ghost models = keys.deep_view();
    let mut order: Vec<usize> = Vec::new();
    let mut n: usize = 0;
    while n < keys.len()
        invariant
            n <= keys.len(),
            models == keys.deep_view(),
            models.len() == keys@.len(),
            order@ == ranking_of_first(models, n as nat),
            order@.len() == n,
            forall|i: int| 0 <= i < order@.len() ==> (#[trigger] order@[i]) < n,
        decreases keys.len() - n,
    {
        let mut at: usize = 0;
        while at < order.len() && !key_precedes(&keys[n], &keys[order[at]])
            invariant
                at <= order.len(),
                n < keys.len(),
                models == keys.deep_view(),
                models.len() == keys@.len(),
                forall|i: int| 0 <= i < order@.len() ==> (#[trigger] order@[i]) < n,
                forall|j: int| 0 <= j < at ==> !precedes(models[n as int], models[#[trigger] order@[j] as int]),
            decreases order.len() - at,
        {
            at += 1;
        }
        proof {
            lemma_placed_at(order@, models, n, at as int);
        }
        let ghost before = order@;
        order.insert(at, n);
        assert forall|i: int| 0 <= i < order@.len() implies (#[trigger] order@[i]) < n + 1 by {
            if i < at {
                assert(order@[i] == before[i]);
            } else if i > at {
                assert(order@[i] == before[i - 1]);
            }
        }
        n += 1;
    }
    proof {
        lemma_ranking(models);
    }
    order
}

} // verus!
