use vstd::arithmetic::div_mod::{lemma_div_plus_one, lemma_fundamental_div_mod};
use vstd::arithmetic::mul::lemma_mul_inequality;
use vstd::prelude::*;

use crate::errors::GprError;

verus! {

/// Number of consecutive blocks of `window` items needed to cover `len`
/// items; the last block may be narrower than `window`.
pub open spec fn block_count(len: int, window: int) -> int
    recommends
        window >= 1,
{
    (len + window - 1) / window
}

/// Index of the first item of block `i`.
pub open spec fn block_start(window: int, i: int) -> int {
    i * window
}

/// One past the index of the last item of block `i`, for a sequence of
/// `len` items.
pub open spec fn block_end(len: int, window: int, i: int) -> int {
    if i * window + window <= len {
        i * window + window
    } else {
        len
    }
}

/// The representative item of block `i`: the middle item when the block
/// width is odd, the item left of the middle when it is even.
pub open spec fn rep_index(len: int, window: int, i: int) -> int {
    block_start(window, i) + (block_end(len, window, i) - block_start(window, i) - 1) / 2
}

/// The ceiling division hidden in `block_count` equals one more than the
/// floor division of `len - 1`.
proof fn lemma_block_count_split(len: int, window: int)
    requires
        len >= 1,
        window >= 1,
    ensures
        block_count(len, window) == (len - 1) / window + 1,
{
    lemma_div_plus_one(len - 1, window);
}

/// Every block of the covering starts inside the sequence.
proof fn lemma_block_start_in_range(len: int, window: int, i: int)
    requires
        len >= 1,
        window >= 1,
        0 <= i < block_count(len, window),
    ensures
        i * window <= len - 1,
{
    lemma_block_count_split(len, window);
    let q = (len - 1) / window;
    lemma_fundamental_div_mod(len - 1, window);
    lemma_mul_inequality(i, q, window);
    assert(q * window == window * q) by (nonlinear_arith);
}

/// The representative of a block lies inside that block.
pub proof fn lemma_rep_index_in_block(len: int, window: int, i: int)
    requires
        len >= 1,
        window >= 1,
        0 <= i < block_count(len, window),
    ensures
        block_start(window, i) <= rep_index(len, window, i) < block_end(len, window, i),
        block_end(len, window, i) <= len,
{
    lemma_block_start_in_range(len, window, i);
    let width = block_end(len, window, i) - block_start(window, i);
    assert(width >= 1);
    assert(0 <= (width - 1) / 2 <= width - 1);
}

/// Law: the representative indices of successive blocks are strictly
/// increasing, so block-wise downsampling keeps the original order.
pub proof fn lemma_rep_index_strictly_increasing(len: int, window: int, i: int, j: int)
    requires
        len >= 1,
        window >= 1,
        0 <= i < j < block_count(len, window),
    ensures
        rep_index(len, window, i) < rep_index(len, window, j),
{
    lemma_rep_index_in_block(len, window, i);
    lemma_rep_index_in_block(len, window, j);
    assert(block_end(len, window, i) <= (i + 1) * window) by (nonlinear_arith);
    lemma_mul_inequality(i + 1, j, window);
    assert((i + 1) * window <= j * window);
}

/// Lays out the column blocks that trace averaging reduces: one half-open
/// `(start, end)` range of input columns per output column.  A window
/// below two or wider than the profile is rejected, so a caller that gets
/// a plan may take the mean of each range without further checks.
pub fn average_plan(ncols: usize, window: usize) -> (r: Result<Vec<(usize, usize)>, GprError>)
    ensures
        window <= 1 ==> (r matches Err(e) && e == (GprError::WindowTooSmall { window })),
        window > 1 && window > ncols ==> (r matches Err(e) && e == (GprError::WindowTooLarge {
            window,
            width: ncols,
        })),
        2 <= window <= ncols ==> (r matches Ok(plan) && plan@.len() == block_count(
            ncols as int,
            window as int,
        ) && (forall|i: int|
            0 <= i < plan@.len() ==> #[trigger] plan@[i] == (
                block_start(window as int, i) as usize,
                block_end(ncols as int, window as int, i) as usize,
            ))),
{
    if window <= 1 {
        return Err(GprError::WindowTooSmall { window });
    }
    if window > ncols {
        return Err(GprError::WindowTooLarge { window, width: ncols });
    }
    let nblocks: usize = (ncols - 1) / window + 1;
    proof {
        lemma_block_count_split(ncols as int, window as int);
    }
    let mut plan: Vec<(usize, usize)> = Vec::new();
    let mut i: usize = 0;
    while i < nblocks
        invariant
            2 <= window <= ncols,
            nblocks == block_count(ncols as int, window as int),
            i <= nblocks,
            plan@.len() == i,
            forall|k: int|
                0 <= k < i ==> #[trigger] plan@[k] == (
                    block_start(window as int, k) as usize,
                    block_end(ncols as int, window as int, k) as usize,
                ),
        decreases nblocks - i,
    {
        proof {
            lemma_block_start_in_range(ncols as int, window as int, i as int);
        }
        let start: usize = i * window;
        let end: usize = if ncols - start <= window {
            ncols
        } else {
            start + window
        };
        plan.push((start, end));
        i = i + 1;
    }
    Ok(plan)
}

/// Reduces a per-trace sequence to one representative entry per block of
/// `window` entries, keeping the original order.  This is the companion
/// rule that keeps trace metadata aligned with trace averaging: where
/// averaging a profile shrinks its columns to one per block, this picks
/// one metadata entry per block.
pub fn window_subset_vec<T>(v: Vec<T>, window: usize) -> (r: Vec<T>)
    requires
        window >= 1,
    ensures
        r@.len() == block_count(v@.len() as int, window as int),
        forall|i: int|
            0 <= i < r@.len() ==> r@[i] == v@[rep_index(v@.len() as int, window as int, i)],
{
    let ghost orig = v@;
    let len = v.len();
    if len == 0 {
        proof {
            vstd::arithmetic::div_mod::lemma_basic_div(window - 1, window as int);
        }
        return Vec::new();
    }
    let nblocks: usize = (len - 1) / window + 1;
    proof {
        lemma_block_count_split(len as int, window as int);
    }
    let mut v = v;
    let mut stack: Vec<T> = Vec::new();
    let mut i: usize = nblocks;
    while i > 0
        invariant
            window >= 1,
            1 <= len <= usize::MAX,
            len == orig.len(),
            nblocks == block_count(len as int, window as int),
            i <= nblocks,
            stack@.len() == nblocks - i,
            v@ == (if i == nblocks {
                orig
            } else {
                orig.take(rep_index(len as int, window as int, i as int))
            }),
            forall|j: int|
                0 <= j < stack@.len() ==> stack@[j] == orig[rep_index(
                    len as int,
                    window as int,
                    nblocks - 1 - j,
                )],
        decreases i,
    {
        i = i - 1;
        proof {
            lemma_rep_index_in_block(len as int, window as int, i as int);
            lemma_block_start_in_range(len as int, window as int, i as int);
            if i + 1 < nblocks {
                lemma_rep_index_strictly_increasing(
                    len as int,
                    window as int,
                    i as int,
                    i + 1 as int,
                );
                lemma_rep_index_in_block(len as int, window as int, i + 1 as int);
            }
        }
        let start: usize = i * window;
        let width: usize = if len - start <= window {
            len - start
        } else {
            window
        };
        let idx: usize = start + (width - 1) / 2;
        assert(idx == rep_index(len as int, window as int, i as int));
        assert(idx < v@.len());
        v.truncate(idx + 1);
        assert(v@ == orig.take(idx + 1 as int));
        let item = v.pop().unwrap();
        proof {
            assert(orig.take(idx + 1 as int).last() == orig[idx as int]);
            assert(orig.take(idx + 1 as int).drop_last() =~= orig.take(idx as int));
        }
        stack.push(item);
    }
    let mut out: Vec<T> = Vec::new();
    while stack.len() > 0
        invariant
            len == orig.len(),
            window >= 1,
            nblocks == block_count(len as int, window as int),
            out@.len() + stack@.len() == nblocks,
            forall|j: int|
                0 <= j < stack@.len() ==> stack@[j] == orig[rep_index(
                    len as int,
                    window as int,
                    nblocks - 1 - j,
                )],
            forall|j: int|
                0 <= j < out@.len() ==> out@[j] == orig[rep_index(len as int, window as int, j)],
        decreases stack@.len(),
    {
        let item = stack.pop().unwrap();
        out.push(item);
    }
    out
}

/// Upper bound on how many samples the adaptive log-compression draws for
/// its quantile estimate: a tenth of the array, and never fewer than one
/// hundred.
pub fn abslog_subsample_count(nrows: usize, ncols: usize) -> (r: usize)
    requires
        nrows * ncols <= usize::MAX,
    ensures
        r == (if nrows * ncols / 10 > 100 {
            nrows * ncols / 10
        } else {
            100int
        }),
{
    let total: usize = nrows * ncols;
    let tenth: usize = total / 10;
    if tenth > 100 {
        tenth
    } else {
        100
    }
}

} // verus!
