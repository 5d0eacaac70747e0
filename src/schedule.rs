//! Static assignment of image rows to render workers.

use vstd::prelude::*;

verus! {

/// The rows below `height` that worker `worker` of `workers` renders, in
/// ascending order: those whose index leaves remainder `worker` when divided
/// by `workers`.
pub open spec fn rows_of(height: nat, workers: nat, worker: nat) -> Seq<u32>
    decreases height,
{
    if height == 0 {
        Seq::empty()
    } else if (height - 1) as nat % workers == worker {
        rows_of((height - 1) as nat, workers, worker).push((height - 1) as u32)
    } else {
        rows_of((height - 1) as nat, workers, worker)
    }
}

/// Every row listed for a worker lies below `height` and belongs to that
/// worker, and every such row is listed.
proof fn lemma_rows_member(height: nat, workers: nat, worker: nat, row: u32)
    requires
        0 < workers,
        height <= u32::MAX as nat + 1,
    ensures
        rows_of(height, workers, worker).contains(row) <==> (row < height && row as nat
            % workers == worker),
    decreases height,
{
    if height > 0 {
        let h1 = (height - 1) as nat;
        lemma_rows_member(h1, workers, worker, row);
        let prev = rows_of(h1, workers, worker);
        if h1 % workers == worker {
            let cur = prev.push(h1 as u32);
            if prev.contains(row) {
                let i = choose|i: int| 0 <= i < prev.len() && prev[i] == row;
                assert(cur[i] == row);
            }
            if row == h1 {
                assert(cur[prev.len() as int] == row);
            }
            if cur.contains(row) {
                let i = choose|i: int| 0 <= i < cur.len() && cur[i] == row;
                if i < prev.len() {
                    assert(prev[i] == row);
                }
            }
        }
    }
}

/// The rows listed for a worker are strictly ascending and below `height`.
pub proof fn lemma_rows_ascending(height: nat, workers: nat, worker: nat)
    requires
        0 < workers,
        height <= u32::MAX as nat + 1,
    ensures
        forall|i: int, j: int|
            0 <= i < j < rows_of(height, workers, worker).len() ==> rows_of(
                height,
                workers,
                worker,
            )[i] < rows_of(height, workers, worker)[j],
        forall|i: int|
            0 <= i < rows_of(height, workers, worker).len() ==> rows_of(height, workers, worker)[i]
                < height,
    decreases height,
{
    if height > 0 {
        let h1 = (height - 1) as nat;
        lemma_rows_ascending(h1, workers, worker);
        let prev = rows_of(h1, workers, worker);
        if h1 % workers == worker {
            let cur = prev.push(h1 as u32);
            assert forall|i: int, j: int| 0 <= i < j < cur.len() implies cur[i] < cur[j] by {
                assert(prev[i] < h1);
            }
            assert forall|i: int| 0 <= i < cur.len() implies cur[i] < height by {
                if i < prev.len() {
                    assert(prev[i] < h1);
                }
            }
        }
    }
}

/// Row partitioning: each row of the image is assigned to exactly one worker,
/// the one whose index is the row's remainder modulo the worker count, and
/// no worker is assigned a row twice.
pub proof fn lemma_rows_partition(height: u32, workers: u32, row: u32)
    requires
        0 < workers,
        row < height,
    ensures
        forall|w: nat|
            w < workers ==> (#[trigger] rows_of(height as nat, workers as nat, w).contains(row)
                <==> w == row % workers),
        forall|w: nat, i: int, j: int|
            0 <= i < j < rows_of(height as nat, workers as nat, w).len() ==> #[trigger] rows_of(
                height as nat,
                workers as nat,
                w,
            )[i] != #[trigger] rows_of(height as nat, workers as nat, w)[j],
{
    assert forall|w: nat|
        w < workers implies (#[trigger] rows_of(height as nat, workers as nat, w).contains(row)
            <==> w == row % workers) by {
        lemma_rows_member(height as nat, workers as nat, w, row);
    }
    assert forall|w: nat, i: int, j: int|
        0 <= i < j < rows_of(height as nat, workers as nat, w).len() implies #[trigger] rows_of(
            height as nat,
            workers as nat,
            w,
        )[i] != #[trigger] rows_of(height as nat, workers as nat, w)[j] by {
        lemma_rows_ascending(height as nat, workers as nat, w);
    }
}

/// The rows that worker `worker` of `workers` renders, in ascending order.
pub fn worker_rows(height: u32, workers: u32, worker: u32) -> (r: Vec<u32>)
    requires
        0 < workers,
        worker < workers,
    ensures
        r@ == rows_of(height as nat, workers as nat, worker as nat),
{
    let mut rows: Vec<u32> = Vec::new();
    let mut j: u32 = 0;
    while j < height
        invariant
            j <= height,
            0 < workers,
            rows@ == rows_of(j as nat, workers as nat, worker as nat),
        decreases height - j,
    {
        if j % workers == worker {
            rows.push(j);
        }
        j = j + 1;
    }
    rows
}

/// The row of the rendered scene that image row `row` shows: row 0 is the
/// top of the image, while sample coordinates grow upwards.
pub fn sample_row(height: u32, row: u32) -> (r: u32)
    requires
        row < height,
    ensures
        r == height - 1 - row,
{
    height - 1 - row
}

} // verus!
