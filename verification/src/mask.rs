//! Boolean row masks: the model of selecting rows, and the facts about it
//! that columns and frames rely on.

use vstd::prelude::*;

verus! {

/// Number of `true` entries of a mask.
pub open spec fn count_true(mask: Seq<bool>) -> nat
    decreases mask.len(),
{
    if mask.len() == 0 {
        0
    } else {
        count_true(mask.drop_last()) + if mask.last() {
            1nat
        } else {
            0nat
        }
    }
}

/// The entries of `s` whose mask entry is `true`, in the order they have
/// in `s`.
/// Meaningful where the two have the same length.
pub open spec fn keep<A>(s: Seq<A>, mask: Seq<bool>) -> Seq<A>
    decreases s.len(),
{
    if s.len() == 0 || mask.len() == 0 {
        Seq::empty()
    } else if mask.last() {
        keep(s.drop_last(), mask.drop_last()).push(s.last())
    } else {
        keep(s.drop_last(), mask.drop_last())
    }
}

/// Selecting by a mask of the same length keeps exactly as many entries as
/// the mask has `true` entries.
pub proof fn keep_len<A>(s: Seq<A>, mask: Seq<bool>)
    requires
        s.len() == mask.len(),
    ensures
        keep(s, mask).len() == count_true(mask),
    decreases s.len(),
{
    if s.len() > 0 {
        keep_len(s.drop_last(), mask.drop_last());
    }
}

/// Extending both sequences by one entry extends the selection by that entry
/// exactly when its mask entry is `true`.
pub proof fn keep_push<A>(s: Seq<A>, mask: Seq<bool>, a: A, b: bool)
    requires
        s.len() == mask.len(),
    ensures
        keep(s.push(a), mask.push(b)) == if b {
            keep(s, mask).push(a)
        } else {
            keep(s, mask)
        },
        count_true(mask.push(b)) == count_true(mask) + if b {
            1nat
        } else {
            0nat
        },
{
    assert(s.push(a).drop_last() =~= s);
    assert(mask.push(b).drop_last() =~= mask);
}

/// Every kept row is found in the selection at the position given by the
/// number of `true` entries before it, so the selection holds the kept rows
/// in the order they have in `s`.
pub proof fn keep_index<A>(s: Seq<A>, mask: Seq<bool>, i: int)
    requires
        s.len() == mask.len(),
        0 <= i < mask.len(),
        mask[i],
    ensures
        count_true(mask.take(i)) < keep(s, mask).len(),
        keep(s, mask)[count_true(mask.take(i)) as int] == s[i],
    decreases s.len(),
{
    let s0 = s.drop_last();
    let m0 = mask.drop_last();
    keep_len(s0, m0);
    keep_len(s, mask);
    if i == mask.len() - 1 {
        assert(mask.take(i) =~= m0);
    } else {
        keep_index(s0, m0, i);
        assert(m0.take(i) =~= mask.take(i));
    }
}

/// A mask without a `true` entry selects nothing.
pub proof fn keep_none<A>(s: Seq<A>, mask: Seq<bool>)
    requires
        s.len() == mask.len(),
        forall|i: int| 0 <= i < mask.len() ==> !mask[i],
    ensures
        count_true(mask) == 0,
        keep(s, mask) == Seq::<A>::empty(),
    decreases s.len(),
{
    if s.len() > 0 {
        keep_none(s.drop_last(), mask.drop_last());
    }
}

/// Every entry of the selection is an entry of the sequence whose mask
/// entry is `true`.
pub proof fn keep_from<A>(s: Seq<A>, mask: Seq<bool>)
    requires
        s.len() == mask.len(),
    ensures
        forall|j: int|
            0 <= j < keep(s, mask).len() ==> exists|i: int|
                0 <= i < s.len() && mask[i] && s[i] == #[trigger] keep(s, mask)[j],
    decreases s.len(),
{
    if s.len() > 0 {
        let s0 = s.drop_last();
        let m0 = mask.drop_last();
        keep_from(s0, m0);
        assert forall|j: int| 0 <= j < keep(s, mask).len() implies exists|i: int|
            0 <= i < s.len() && mask[i] && s[i] == #[trigger] keep(s, mask)[j] by {
            if j < keep(s0, m0).len() {
                let i = choose|i: int| 0 <= i < s0.len() && m0[i] && s0[i] == keep(s0, m0)[j];
                assert(mask[i] && s[i] == keep(s, mask)[j]);
            } else {
                let i = s.len() - 1;
                assert(mask[i] && s[i] == keep(s, mask)[j]);
            }
        }
    }
}

/// A mask of `true` entries alone selects everything.
pub proof fn keep_all<A>(s: Seq<A>, mask: Seq<bool>)
    requires
        s.len() == mask.len(),
        forall|i: int| 0 <= i < mask.len() ==> mask[i],
    ensures
        count_true(mask) == mask.len(),
        keep(s, mask) == s,
    decreases s.len(),
{
    if s.len() > 0 {
        keep_all(s.drop_last(), mask.drop_last());
        assert(s.drop_last().push(s.last()) =~= s);
    } else {
        assert(s =~= Seq::<A>::empty());
    }
}

/// The selection depends only on the selected entries: two sequences that
/// agree wherever the mask is `true` have the same selection.
pub proof fn keep_agree<A>(a: Seq<A>, b: Seq<A>, mask: Seq<bool>)
    requires
        a.len() == mask.len(),
        b.len() == mask.len(),
        forall|i: int| 0 <= i < mask.len() && mask[i] ==> a[i] == b[i],
    ensures
        keep(a, mask) == keep(b, mask),
    decreases mask.len(),
{
    if mask.len() > 0 {
        keep_agree(a.drop_last(), b.drop_last(), mask.drop_last());
    }
}

/// The mask that selects what `mask` leaves out.
pub open spec fn inverse(mask: Seq<bool>) -> Seq<bool> {
    Seq::new(mask.len(), |i: int| !mask[i])
}

/// Where every selected entry stands before every entry left out, the
/// selection followed by the rest is the whole sequence.
pub proof fn keep_then_rest<A>(s: Seq<A>, mask: Seq<bool>)
    requires
        s.len() == mask.len(),
        forall|i: int, j: int| 0 <= i < j < mask.len() && mask[j] ==> mask[i],
    ensures
        keep(s, mask) + keep(s, inverse(mask)) == s,
    decreases s.len(),
{
    if s.len() == 0 {
        assert(keep(s, mask) + keep(s, inverse(mask)) =~= s);
    } else {
        let s0 = s.drop_last();
        let m0 = mask.drop_last();
        assert(inverse(mask).drop_last() =~= inverse(m0));
        if mask.last() {
            assert forall|i: int| 0 <= i < mask.len() implies mask[i] by {
                if i < mask.len() - 1 {
                    assert(mask[mask.len() - 1]);
                }
            }
            keep_all(s, mask);
            keep_none(s, inverse(mask));
            assert(keep(s, mask) + keep(s, inverse(mask)) =~= s);
        } else {
            keep_then_rest(s0, m0);
            assert(keep(s, mask) + keep(s, inverse(mask)) =~= (keep(s0, m0) + keep(
                s0,
                inverse(m0),
            )).push(s.last()));
            assert(s0.push(s.last()) =~= s);
        }
    }
}

} // verus!
