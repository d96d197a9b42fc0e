//! The pixel grid: its height for a given width and aspect ratio, and the
//! order in which its pixels are computed and written.
use vstd::prelude::*;

use vstd::arithmetic::div_mod::lemma_fundamental_div_mod_converse;

verus! {

/// Height in pixels of an image `image_width` pixels wide whose aspect ratio
/// (width over height) is `aspect_width / aspect_height`: the ceiling of
/// `image_width / (aspect_width / aspect_height)`. `None` for a zero
/// `aspect_width`, which leaves the height undefined.
pub fn image_height(image_width: u32, aspect_width: u32, aspect_height: u32) -> (r: Option<u64>)
    ensures
        r is None <==> aspect_width == 0,
        r matches Some(h) ==> {
            &&& h * aspect_width >= image_width * aspect_height
            &&& h == 0 || (h - 1) * aspect_width < image_width * aspect_height
        },
{
    if aspect_width == 0 {
        return None;
    }
    assert(image_width * aspect_height <= 0xffff_ffffu64 * 0xffff_ffffu64) by (nonlinear_arith)
        requires
            image_width <= 0xffff_ffffu64,
            aspect_height <= 0xffff_ffffu64,
    ;
    let area: u64 = image_width as u64 * aspect_height as u64;
    let aw: u64 = aspect_width as u64;
    let q: u64 = area / aw;
    assert(q <= area) by (nonlinear_arith)
        requires
            aw >= 1,
            q == area / aw,
    ;
    let h: u64 = if area % aw == 0 {
        q
    } else {
        q + 1
    };
    proof {
        let rem = area % aw;
        assert(area == q * aw + rem) by (nonlinear_arith)
            requires
                aw > 0,
                q == area / aw,
                rem == area % aw,
        ;
        if rem == 0 {
            assert(h * aw == area);
            if h > 0 {
                assert((h - 1) * aw == h * aw - aw) by (nonlinear_arith);
            }
        } else {
            assert(h * aw == q * aw + aw) by (nonlinear_arith)
                requires
                    h == q + 1,
            ;
            assert((h - 1) * aw == q * aw);
        }
    }
    Some(h)
}

/// Column and row of the `k`-th pixel in scan order: rows go from the top
/// of the image (row `height - 1`) down to row `0`, and each row from column
/// `0` rightwards.
pub open spec fn scan_position(width: nat, height: nat, k: nat) -> (nat, nat) {
    (k % width, (height - 1 - k / width) as nat)
}

/// Every place of the grid, in scan order.
pub fn scan_order(width: u32, height: u32) -> (r: Vec<(u32, u32)>)
    requires
        width * height <= usize::MAX,
    ensures
        r@.len() == width * height,
        forall|k: int|
            0 <= k < r@.len() ==> {
                let (col, row) = #[trigger] r@[k];
                (col as nat, row as nat) == scan_position(width as nat, height as nat, k as nat)
            },
{
    let mut out: Vec<(u32, u32)> = Vec::new();
    let mut done: u32 = 0;
    while done < height
        invariant
            done <= height,
            width * height <= usize::MAX,
            out@.len() == done * width,
            forall|k: int|
                0 <= k < out@.len() ==> {
                    let (col, row) = #[trigger] out@[k];
                    (col as nat, row as nat) == scan_position(width as nat, height as nat, k as nat)
                },
        decreases height - done,
    {
        let row: u32 = height - 1 - done;
        let mut col: u32 = 0;
        while col < width
            invariant
                done < height,
                row == height - 1 - done,
                col <= width,
                width * height <= usize::MAX,
                out@.len() == done * width + col,
                forall|k: int|
                    0 <= k < out@.len() ==> {
                        let (c, r) = #[trigger] out@[k];
                        (c as nat, r as nat) == scan_position(width as nat, height as nat, k as nat)
                    },
            decreases width - col,
        {
            proof {
                let k = done * width + col;
                lemma_fundamental_div_mod_converse(k, width as int, done as int, col as int);
                assert(k < width * height) by (nonlinear_arith)
                    requires
                        k == done * width + col,
                        col < width,
                        done < height,
                ;
            }
            out.push((col, row));
            col = col + 1;
        }
        assert((done + 1) * width == done * width + width) by (nonlinear_arith);
        done = done + 1;
    }
    assert(height * width == width * height) by (nonlinear_arith);
    out
}

/// Scan order visits every place of the grid: column `col` of row `row` is
/// the pixel at position `(height - 1 - row) * width + col`, which is within
/// the `width * height` pixels of the image.
pub proof fn lemma_scan_reaches_every_place(width: nat, height: nat, col: nat, row: nat)
    requires
        col < width,
        row < height,
    ensures
        (height - 1 - row) * width + col < width * height,
        scan_position(width, height, ((height - 1 - row) * width + col) as nat) == (col, row),
{
    let q = height - 1 - row;
    let k = q * width + col;
    lemma_fundamental_div_mod_converse(k, width as int, q, col as int);
    assert(k < width * height) by (nonlinear_arith)
        requires
            k == q * width + col,
            col < width,
            0 <= q < height,
    ;
}

} // verus!
