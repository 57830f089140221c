//! How the rows of the image are shared out among the workers, and where each
//! pixel of the gathered result lands.

use vstd::prelude::*;

verus! {

/// The rows `[first, last)` of worker `id` among `workers`: every worker takes
/// `height / workers` rows in turn, and the last takes what is left as well.
pub open spec fn rows_of(id: int, workers: int, height: int) -> (int, int) {
    let share = height / workers;
    (
        share * id,
        if id == workers - 1 {
            height
        } else {
            share * id + share
        },
    )
}

/// `row` is one of the rows of worker `id`.
pub open spec fn renders(id: int, workers: int, height: int, row: int) -> bool {
    rows_of(id, workers, height).0 <= row < rows_of(id, workers, height).1
}

/// The rows that worker `id` renders.
pub fn row_range(id: usize, workers: usize, height: usize) -> (r: (usize, usize))
    requires
        id < workers,
    ensures
        (r.0 as int, r.1 as int) == rows_of(id as int, workers as int, height as int),
        r.0 <= r.1 <= height,
{
    let share = height / workers;
    proof {
        share_fits(id as int, workers as int, height as int);
    }
    let first = share * id;
    let last = if id == workers - 1 {
        height
    } else {
        first + share
    };
    (first, last)
}

/// A worker's share, taken `id + 1` times, stays within the image.
pub proof fn share_fits(id: int, workers: int, height: int)
    requires
        0 <= id < workers,
        0 <= height,
    ensures
        0 <= (height / workers) * id,
        (height / workers) * id + height / workers <= height,
{
    let share = height / workers;
    assert(0 <= share && share * workers <= height) by (nonlinear_arith)
        requires
            0 < workers,
            0 <= height,
            share == height / workers,
    ;
    assert(0 <= share * id && share * id + share <= share * workers) by (nonlinear_arith)
        requires
            0 <= id < workers,
            0 <= share,
    ;
}

/// The ranges of the workers tile the image: the first starts at row zero, each
/// ends where the next starts, none runs backwards, and the last ends at the
/// last row. So every row belongs to exactly one worker.
pub proof fn row_ranges_tile(id: int, workers: int, height: int)
    requires
        0 <= id < workers,
        0 <= height,
    ensures
        rows_of(0, workers, height).0 == 0,
        rows_of(id, workers, height).0 <= rows_of(id, workers, height).1 <= height,
        id + 1 < workers ==> rows_of(id, workers, height).1 == rows_of(id + 1, workers, height).0,
        rows_of(workers - 1, workers, height).1 == height,
{
    let share = height / workers;
    share_fits(id, workers, height);
    assert(share * 0 == 0);
    if id + 1 < workers {
        assert(share * (id + 1) == share * id + share) by (nonlinear_arith);
    }
}

/// The worker that renders `row`.
pub proof fn row_has_one_worker(row: int, workers: int, height: int) -> (id: int)
    requires
        0 < workers,
        0 <= row < height,
    ensures
        0 <= id < workers,
        renders(id, workers, height, row),
        forall|other: int|
            0 <= other < workers && #[trigger] renders(other, workers, height, row) ==> other
                == id,
{
    let share = height / workers;
    let id = if share == 0 || row / share >= workers - 1 {
        workers - 1
    } else {
        row / share
    };
    share_fits(workers - 1, workers, height);
    if share > 0 {
        assert(share * (row / share) <= row < share * (row / share) + share) by (nonlinear_arith)
            requires
                share > 0,
                row >= 0,
        ;
        if row / share >= workers - 1 {
            assert(share * (workers - 1) <= share * (row / share)) by (nonlinear_arith)
                requires
                    share > 0,
                    row / share >= workers - 1,
            ;
        }
    } else {
        assert(share * (workers - 1) == 0) by (nonlinear_arith)
            requires
                share == 0,
        ;
    }
    assert forall|other: int|
        0 <= other < workers && #[trigger] renders(other, workers, height, row) implies other
            == id by {
        if other != id {
            if other < id {
                assert(share * other + share <= share * id) by (nonlinear_arith)
                    requires
                        other < id,
                        share >= 0,
                ;
            } else {
                assert(share * id + share <= share * other) by (nonlinear_arith)
                    requires
                        id < other,
                        share >= 0,
                ;
            }
        }
    }
    id
}

/// The place of the pixel in column `i` of rendered row `j` in the gathered
/// result, which holds the rows in the order of the workers.
pub fn pixel_index(i: usize, j: usize, width: usize, height: usize) -> (r: usize)
    requires
        i < width,
        j < height,
        width * height <= usize::MAX,
    ensures
        r == j * width + i,
        r < width * height,
{
    proof {
        assert(j * width + i < width * height) by (nonlinear_arith)
            requires
                i < width,
                j < height,
        ;
        assert(0 <= j * width) by (nonlinear_arith)
            requires
                0 <= j,
                0 <= width,
        ;
    }
    j * width + i
}

/// The image row on which rendered row `j` is written: rendering counts rows
/// from the bottom, the image from the top.
pub fn image_row(j: usize, height: usize) -> (r: usize)
    requires
        j < height,
    ensures
        r == height - 1 - j,
        r < height,
{
    height - j - 1
}

} // verus!
