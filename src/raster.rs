//! The order in which pixels are rendered and written.

use vstd::prelude::*;
use vstd::arithmetic::div_mod::lemma_fundamental_div_mod_converse;

verus! {

/// The pixel visited in place `k` of a `width`-wide image of `height` rows:
/// `(column, row)`, with rows counted from the bottom. Rows are visited from
/// the top down and each row from left to right.
pub open spec fn visit_position(width: nat, height: nat, k: nat) -> (nat, nat) {
    ((k % width) as nat, (height - 1 - k / width) as nat)
}

/// The place at which pixel `(column, row)` is visited.
pub open spec fn visit_index(width: nat, height: nat, column: nat, row: nat) -> nat {
    ((height - 1 - row) * width + column) as nat
}

/// The pixels of a `width` by `height` image in the order in which they are
/// rendered and written: top row first, each row from left to right. Each
/// pair is `(column, row)`, with row 0 at the bottom of the image.
pub fn pixel_order(width: u32, height: u32) -> (r: Vec<(u32, u32)>)
    requires
        width * height <= usize::MAX,
    ensures
        r@.len() == width * height,
        forall|k: int|
            0 <= k < r@.len() ==> (#[trigger] r@[k]).0 as nat == visit_position(
                width as nat,
                height as nat,
                k as nat,
            ).0 && r@[k].1 as nat == visit_position(width as nat, height as nat, k as nat).1,
{
    let mut out: Vec<(u32, u32)> = Vec::new();
    let mut done: u32 = 0;
    while done < height
        invariant
            done <= height,
            width * height <= usize::MAX,
            out@.len() == done * width,
            forall|k: int|
                0 <= k < out@.len() ==> (#[trigger] out@[k]).0 as nat == visit_position(
                    width as nat,
                    height as nat,
                    k as nat,
                ).0 && out@[k].1 as nat == visit_position(width as nat, height as nat, k as nat).1,
        decreases height - done,
    {
        let row = height - 1 - done;
        let mut column: u32 = 0;
        while column < width
            invariant
                done < height,
                row == height - 1 - done,
                column <= width,
                width * height <= usize::MAX,
                out@.len() == done * width + column,
                forall|k: int|
                    0 <= k < out@.len() ==> (#[trigger] out@[k]).0 as nat == visit_position(
                        width as nat,
                        height as nat,
                        k as nat,
                    ).0 && out@[k].1 as nat == visit_position(
                        width as nat,
                        height as nat,
                        k as nat,
                    ).1,
            decreases width - column,
        {
            proof {
                let k = done * width + column;
                lemma_fundamental_div_mod_converse(k, width as int, done as int, column as int);
                assert((done + 1) * width <= height * width) by (nonlinear_arith)
                    requires
                        done < height,
                ;
                assert(done * width + column < (done + 1) * width) by (nonlinear_arith)
                    requires
                        column < width,
                ;
            }
            out.push((column, row));
            column = column + 1;
        }
        proof {
            assert(done * width + width == (done + 1) * width) by (nonlinear_arith);
        }
        done = done + 1;
    }
    proof {
        assert(done * width == width * height) by (nonlinear_arith)
            requires
                done == height,
        ;
    }
    out
}

/// Every pixel of the image is visited, at the place `visit_index` gives.
pub proof fn lemma_every_pixel_visited(width: nat, height: nat, column: nat, row: nat)
    requires
        column < width,
        row < height,
    ensures
        visit_index(width, height, column, row) < width * height,
        visit_position(width, height, visit_index(width, height, column, row)) == (column, row),
{
    let q = (height - 1 - row) as nat;
    let k = q * width + column;
    lemma_fundamental_div_mod_converse(k as int, width as int, q as int, column as int);
    assert(q * width + column < (q + 1) * width) by (nonlinear_arith)
        requires
            column < width,
    ;
    assert((q + 1) * width <= height * width) by (nonlinear_arith)
        requires
            q < height,
    ;
}

} // verus!
