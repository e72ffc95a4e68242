use vstd::prelude::*;

verus! {

/// The rows of a validity mask as booleans: `None` when the mask is missing.
pub open spec fn mask_view(mask: Option<Vec<bool>>) -> Option<Seq<bool>> {
    match mask {
        Some(m) => Some(m@),
        None => None,
    }
}

/// The validity of `len` rows described by an optional mask: a missing mask
/// means that every row is valid.
pub open spec fn expand_validity(len: nat, mask: Option<Seq<bool>>) -> Seq<bool> {
    match mask {
        Some(m) => m,
        None => Seq::new(len, |_i: int| true),
    }
}

/// Whether any of the `(length, mask)` parts carries a mask.
pub open spec fn any_mask(parts: Seq<(nat, Option<Seq<bool>>)>) -> bool {
    exists|i: int| 0 <= i < parts.len() && (#[trigger] parts[i]).1 is Some
}

/// The rows of all parts, one block per part, each block its mask or, where
/// the part has none, all-valid of its length.
pub open spec fn expanded_blocks(parts: Seq<(nat, Option<Seq<bool>>)>) -> Seq<bool> {
    parts.map_values(|p: (nat, Option<Seq<bool>>)| expand_validity(p.0, p.1)).flatten()
}

/// The validity of a concatenation: missing when every part's mask is missing,
/// otherwise the blocks of all parts in order.
pub open spec fn concat_validity_spec(parts: Seq<(nat, Option<Seq<bool>>)>) -> Option<Seq<bool>> {
    if any_mask(parts) {
        Some(expanded_blocks(parts))
    } else {
        None
    }
}

/// Appends the rows of one part to a mask under construction.
pub fn extend_validity(mask: &mut Vec<bool>, len: usize, part: &Option<Vec<bool>>)
    requires
        part matches Some(m) ==> m@.len() == len,
    ensures
        final(mask)@ == old(mask)@ + expand_validity(len as nat, mask_view(*part)),
{
    match part {
        Some(m) => {
            let mut i: usize = 0;
            while i < m.len()
                invariant
                    i <= m@.len(),
                    mask@ == old(mask)@ + m@.subrange(0, i as int),
                decreases m@.len() - i,
            {
                mask.push(m[i]);
                i = i + 1;
                proof {
                    assert(mask@ =~= old(mask)@ + m@.subrange(0, i as int));
                }
            }
            proof {
                assert(m@.subrange(0, m@.len() as int) =~= m@);
            }
        },
        None => {
            let mut i: usize = 0;
            while i < len
                invariant
                    i <= len,
                    mask@ == old(mask)@ + Seq::new(i as nat, |_j: int| true),
                decreases len - i,
            {
                mask.push(true);
                i = i + 1;
                proof {
                    assert(mask@ =~= old(mask)@ + Seq::new(i as nat, |_j: int| true));
                }
            }
        },
    }
}

/// Pushing one part onto the list of parts appends its block to the rows.
pub proof fn lemma_blocks_push(parts: Seq<(nat, Option<Seq<bool>>)>, p: (nat, Option<Seq<bool>>))
    ensures
        expanded_blocks(parts.push(p)) == expanded_blocks(parts) + expand_validity(p.0, p.1),
        any_mask(parts.push(p)) == (any_mask(parts) || p.1 is Some),
{
    let f = |q: (nat, Option<Seq<bool>>)| expand_validity(q.0, q.1);
    assert(parts.push(p).map_values(f) =~= parts.map_values(f).push(f(p)));
    parts.map_values(f).lemma_flatten_push(f(p));
    if any_mask(parts) {
        let i = choose|i: int| 0 <= i < parts.len() && (#[trigger] parts[i]).1 is Some;
        assert(parts.push(p)[i] == parts[i]);
    }
    if p.1 is Some {
        assert(parts.push(p)[parts.len() as int] == p);
    }
    if any_mask(parts.push(p)) {
        let i = choose|i: int| 0 <= i < parts.push(p).len() && (#[trigger] parts.push(p)[i]).1 is Some;
        if i < parts.len() {
            assert(parts[i] == parts.push(p)[i]);
        }
    }
}

/// Where the block of part `i` starts: the row count of the parts before it.
pub open spec fn block_start(parts: Seq<(nat, Option<Seq<bool>>)>, i: int) -> nat
    decreases i,
{
    if i <= 0 {
        0
    } else {
        block_start(parts, i - 1) + parts[i - 1].0
    }
}

/// Whether each part's mask, where present, covers its row count.
pub open spec fn masks_fit(parts: Seq<(nat, Option<Seq<bool>>)>) -> bool {
    forall|j: int| 0 <= j < parts.len() ==> ((#[trigger] parts[j]).1 matches Some(m) ==> m.len() == parts[j].0)
}

proof fn lemma_blocks_len(parts: Seq<(nat, Option<Seq<bool>>)>)
    requires
        masks_fit(parts),
    ensures
        expanded_blocks(parts).len() == block_start(parts, parts.len() as int),
    decreases parts.len(),
{
    if parts.len() > 0 {
        let init = parts.drop_last();
        assert(masks_fit(init)) by {
            assert forall|j: int| 0 <= j < init.len() implies ((#[trigger] init[j]).1 matches Some(m)
                ==> m.len() == init[j].0) by {
                assert(init[j] == parts[j]);
            }
        }
        lemma_blocks_len(init);
        assert(init.push(parts.last()) =~= parts);
        lemma_blocks_push(init, parts.last());
        lemma_block_start_prefix(parts, init, init.len() as int);
        assert(parts[parts.len() - 1] == parts.last());
    } else {
        assert(parts.map_values(|p: (nat, Option<Seq<bool>>)| expand_validity(p.0, p.1)) =~= Seq::<Seq<bool>>::empty());
    }
}

proof fn lemma_block_start_prefix(parts: Seq<(nat, Option<Seq<bool>>)>, init: Seq<(nat, Option<Seq<bool>>)>, i: int)
    requires
        0 <= i <= init.len(),
        init.len() <= parts.len(),
        forall|j: int| 0 <= j < init.len() ==> init[j] == parts[j],
    ensures
        block_start(init, i) == block_start(parts, i),
    decreases i,
{
    if i > 0 {
        lemma_block_start_prefix(parts, init, i - 1);
    }
}

/// In the validity of a concatenation where some part has a mask, row `k`
/// of part `i` stands at the part's offset plus `k`, and is that part's
/// mask bit, or valid if the part has no mask. Without any mask the
/// concatenation has none.
pub proof fn lemma_validity_blocks(parts: Seq<(nat, Option<Seq<bool>>)>, i: int, k: int)
    requires
        masks_fit(parts),
        0 <= i < parts.len(),
        0 <= k < parts[i].0,
    ensures
        !any_mask(parts) ==> concat_validity_spec(parts) is None,
        any_mask(parts) ==> (concat_validity_spec(parts) matches Some(v) && v.len()
            == block_start(parts, parts.len() as int) && v[block_start(parts, i) + k]
            == expand_validity(parts[i].0, parts[i].1)[k]),
    decreases parts.len(),
{
    lemma_blocks_len(parts);
    let init = parts.drop_last();
    assert(masks_fit(init)) by {
        assert forall|j: int| 0 <= j < init.len() implies ((#[trigger] init[j]).1 matches Some(m)
            ==> m.len() == init[j].0) by {
            assert(init[j] == parts[j]);
        }
    }
    assert(init.push(parts.last()) =~= parts);
    lemma_blocks_push(init, parts.last());
    lemma_blocks_len(init);
    lemma_block_start_prefix(parts, init, init.len() as int);
    if i < parts.len() - 1 {
        assert(init[i] == parts[i]);
        lemma_block_start_prefix(parts, init, i);
        lemma_blocks_index(init, i, k);
        lemma_block_start_le(init, i + 1, init.len() as int);
        lemma_block_start_prefix(parts, init, i + 1);
    } else {
        assert(parts[i] == parts.last());
        let m = expand_validity(parts[i].0, parts[i].1);
        assert(m.len() == parts[i].0);
    }
}

proof fn lemma_block_start_le(parts: Seq<(nat, Option<Seq<bool>>)>, i: int, j: int)
    requires
        0 <= i <= j,
    ensures
        block_start(parts, i) <= block_start(parts, j),
    decreases j - i,
{
    if i < j {
        lemma_block_start_le(parts, i, j - 1);
    }
}

proof fn lemma_blocks_index(parts: Seq<(nat, Option<Seq<bool>>)>, i: int, k: int)
    requires
        masks_fit(parts),
        0 <= i < parts.len(),
        0 <= k < parts[i].0,
    ensures
        expanded_blocks(parts)[block_start(parts, i) + k] == expand_validity(parts[i].0, parts[i].1)[k],
    decreases parts.len(),
{
    lemma_blocks_len(parts);
    let init = parts.drop_last();
    assert(masks_fit(init)) by {
        assert forall|j: int| 0 <= j < init.len() implies ((#[trigger] init[j]).1 matches Some(m)
            ==> m.len() == init[j].0) by {
            assert(init[j] == parts[j]);
        }
    }
    assert(init.push(parts.last()) =~= parts);
    lemma_blocks_push(init, parts.last());
    lemma_blocks_len(init);
    lemma_block_start_prefix(parts, init, init.len() as int);
    if i < parts.len() - 1 {
        assert(init[i] == parts[i]);
        lemma_block_start_prefix(parts, init, i);
        lemma_block_start_prefix(parts, init, i + 1);
        lemma_blocks_index(init, i, k);
        lemma_block_start_le(init, i + 1, init.len() as int);
    } else {
        assert(parts[i] == parts.last());
        let m = expand_validity(parts[i].0, parts[i].1);
        assert(m.len() == parts[i].0);
    }
}

} // verus!
