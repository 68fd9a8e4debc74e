//! Telling the tokens of a text from the padding around them.

use vstd::prelude::*;

verus! {

/// The items at the positions that the attention mask marks as real (non-zero), in
/// their order.
pub open spec fn keep_real<T>(items: Seq<T>, mask: Seq<u32>) -> Seq<T>
    decreases items.len(),
{
    if items.len() == 0 {
        Seq::empty()
    } else {
        let rest = keep_real(items.drop_last(), mask);
        if items.len() <= mask.len() && mask[items.len() - 1] != 0 {
            rest.push(items.last())
        } else {
            rest
        }
    }
}

/// How many positions the attention mask marks as real.
pub open spec fn real_count(mask: Seq<u32>) -> nat {
    keep_real(mask, mask).len()
}

/// Stripping keeps as many items as the mask has real positions among the first
/// `items.len()`, and never more than there were.
pub proof fn lemma_keep_real_len<T>(items: Seq<T>, mask: Seq<u32>)
    requires
        items.len() <= mask.len(),
    ensures
        keep_real(items, mask).len() == keep_real(mask.take(items.len() as int), mask).len(),
        keep_real(items, mask).len() <= items.len(),
        items.len() == mask.len() ==> keep_real(items, mask).len() == real_count(mask),
    decreases items.len(),
{
    let prefix = mask.take(items.len() as int);
    if items.len() > 0 {
        lemma_keep_real_len(items.drop_last(), mask);
        assert(prefix.drop_last() =~= mask.take(items.len() - 1));
    }
    if items.len() == mask.len() {
        assert(prefix =~= mask);
    }
}

/// With padding on the right only, stripping is cutting at the number of real
/// positions.
pub proof fn lemma_keep_real_right_padded<T>(items: Seq<T>, mask: Seq<u32>, cut: int)
    requires
        items.len() <= mask.len(),
        0 <= cut,
        forall|i: int| 0 <= i < mask.len() ==> (mask[i] != 0 <==> i < cut),
    ensures
        keep_real(items, mask) == if cut <= items.len() {
            items.take(cut)
        } else {
            items
        },
    decreases items.len(),
{
    if items.len() > 0 {
        lemma_keep_real_right_padded(items.drop_last(), mask, cut);
        if cut < items.len() {
            assert(items.drop_last().take(cut) =~= items.take(cut));
        } else {
            assert(items.drop_last().push(items.last()) =~= items);
            if cut == items.len() {
                assert(items.take(cut) =~= items);
            }
        }
    } else {
        assert(items.take(0) =~= items);
    }
}

/// Drops the items that stand at padding positions.
pub fn strip_padding<T>(items: Vec<T>, mask: &[u32]) -> (kept: Vec<T>)
    ensures
        kept@ == keep_real(items@, mask@),
        kept.len() <= items.len(),
        items.len() == mask.len() ==> kept.len() == real_count(mask@),
{
    let ghost all = items@;
    let total = items.len();
    let mut kept: Vec<T> = Vec::new();
    let mut at: usize = 0;
    for item in it: items
        invariant
            it.seq() == all,
            all.len() == total,
            at == it.index(),
            kept@ == keep_real(all.take(at as int), mask@),
            kept.len() <= at,
    {
        proof {
            assert(all.take(at + 1).drop_last() =~= all.take(at as int));
        }
        if at < mask.len() && mask[at] != 0 {
            kept.push(item);
        }
        at += 1;
    }
    proof {
        assert(all.take(at as int) =~= all);
        if all.len() == mask.len() {
            lemma_keep_real_len(all, mask@);
        }
    }
    kept
}

/// How many positions of the mask are real.
pub fn count_real(mask: &[u32]) -> (count: usize)
    ensures
        count == real_count(mask@),
        count <= mask.len(),
{
    let mut count: usize = 0;
    let mut at: usize = 0;
    while at < mask.len()
        invariant
            at <= mask.len(),
            count == keep_real(mask@.take(at as int), mask@).len(),
            count <= at,
        decreases mask.len() - at,
    {
        proof {
            assert(mask@.take(at + 1).drop_last() =~= mask@.take(at as int));
        }
        if mask[at] != 0 {
            count += 1;
        }
        at += 1;
    }
    proof {
        assert(mask@.take(at as int) =~= mask@);
    }
    count
}

} // verus!
