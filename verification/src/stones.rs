//! Stone counting: the total number of stones in a row of bowls, and the
//! arithmetic facts about it that the sowing proofs need.

use vstd::prelude::*;

verus! {

/// Total number of stones held by a row of bowls.
pub open spec fn stone_sum(s: Seq<u8>) -> int
    decreases s.len(),
{
    if s.len() == 0 {
        0
    } else {
        s[0] + stone_sum(s.drop_first())
    }
}

pub proof fn lemma_stone_sum_nonneg(s: Seq<u8>)
    ensures
        stone_sum(s) >= 0,
    decreases s.len(),
{
    if s.len() > 0 {
        lemma_stone_sum_nonneg(s.drop_first());
    }
}

/// Appending a bowl adds its count to the total.
pub proof fn lemma_stone_sum_push(s: Seq<u8>, v: u8)
    ensures
        stone_sum(s.push(v)) == stone_sum(s) + v,
    decreases s.len(),
{
    if s.len() == 0 {
        assert(s.push(v).drop_first() =~= Seq::<u8>::empty());
        assert(stone_sum(Seq::<u8>::empty()) == 0);
        assert(s.push(v)[0] == v);
    } else {
        assert(s.push(v).drop_first() =~= s.drop_first().push(v));
        lemma_stone_sum_push(s.drop_first(), v);
    }
}

/// Replacing one bowl's count changes the total by the difference.
pub proof fn lemma_stone_sum_update(s: Seq<u8>, i: int, v: u8)
    requires
        0 <= i < s.len(),
    ensures
        stone_sum(s.update(i, v)) == stone_sum(s) - s[i] + v,
    decreases s.len(),
{
    if i == 0 {
        assert(s.update(0, v).drop_first() =~= s.drop_first());
    } else {
        assert(s.update(i, v).drop_first() =~= s.drop_first().update(i - 1, v));
        lemma_stone_sum_update(s.drop_first(), i - 1, v);
    }
}

/// No single bowl holds more stones than the whole row.
pub proof fn lemma_stone_le_sum(s: Seq<u8>, i: int)
    requires
        0 <= i < s.len(),
    ensures
        s[i] <= stone_sum(s),
    decreases s.len(),
{
    if i == 0 {
        lemma_stone_sum_nonneg(s.drop_first());
    } else {
        lemma_stone_le_sum(s.drop_first(), i - 1);
    }
}

/// Two distinct bowls together hold no more stones than the whole row.
pub proof fn lemma_two_stones_le_sum(s: Seq<u8>, i: int, j: int)
    requires
        0 <= i < s.len(),
        0 <= j < s.len(),
        i != j,
    ensures
        s[i] + s[j] <= stone_sum(s),
{
    let emptied = s.update(i, 0u8);
    lemma_stone_sum_update(s, i, 0u8);
    lemma_stone_le_sum(emptied, j);
}

} // verus!
