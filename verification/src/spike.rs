//! The rendering spike's parity gate: every unambiguous pixel of a rendered pixmap must agree with
//! the hit-test kernel about whether it lies inside the region.

use vstd::prelude::*;

verus! {

/// A rendered RGBA8 image, row-major, four bytes per pixel.
#[derive(Clone, Debug)]
pub struct Pixmap {
    /// Width in pixels.
    pub width: u32,
    /// Height in pixels.
    pub height: u32,
    /// Pixel bytes.
    pub data: Vec<u8>,
}

/// The outcome of a parity check: how many pixels were compared, and which disagreed.
#[derive(Debug)]
pub struct ParityReport {
    /// Pixels that were exactly the fill or the background color (the ones compared).
    pub checked: usize,
    /// `(x, y)` of every compared pixel whose color disagrees with the hit test, in row-major order.
    pub mismatches: Vec<(u32, u32)>,
}

/// The software renderer candidate of the spike (its drawing is done by `tiny-skia`).
pub struct TinySkiaRenderer;

/// True when pixel `k` of `data` has exactly color `c`.
pub open spec fn pixel_is(data: Seq<u8>, k: int, c: Seq<u8>) -> bool {
    &&& data[4 * k] == c[0]
    &&& data[4 * k + 1] == c[1]
    &&& data[4 * k + 2] == c[2]
    &&& data[4 * k + 3] == c[3]
}

/// True when pixel `k` is compared: it is exactly the fill or exactly the background
/// (antialiased or blended pixels are ambiguous and skipped).
pub open spec fn compared(data: Seq<u8>, k: int, fill: Seq<u8>, bg: Seq<u8>) -> bool {
    pixel_is(data, k, fill) || pixel_is(data, k, bg)
}

/// How many of the first `n` pixels are compared.
pub open spec fn checked_count(data: Seq<u8>, fill: Seq<u8>, bg: Seq<u8>, n: int) -> nat
    decreases n,
{
    if n <= 0 {
        0
    } else {
        checked_count(data, fill, bg, n - 1) + if compared(data, n - 1, fill, bg) {
            1nat
        } else {
            0nat
        }
    }
}

/// The coordinates of every compared pixel among the first `n` whose fill color disagrees with
/// `inside`, in order.
pub open spec fn mismatch_list(
    data: Seq<u8>,
    inside: Seq<bool>,
    fill: Seq<u8>,
    bg: Seq<u8>,
    w: int,
    n: int,
) -> Seq<(u32, u32)>
    decreases n,
{
    if n <= 0 {
        Seq::empty()
    } else {
        let prev = mismatch_list(data, inside, fill, bg, w, n - 1);
        let k = n - 1;
        if compared(data, k, fill, bg) && inside[k] != pixel_is(data, k, fill) {
            prev.push(((k % w) as u32, (k / w) as u32))
        } else {
            prev
        }
    }
}

proof fn lemma_checked_bound(data: Seq<u8>, fill: Seq<u8>, bg: Seq<u8>, n: int)
    requires
        0 <= n,
    ensures
        checked_count(data, fill, bg, n) <= n,
    decreases n,
{
    if n > 0 {
        lemma_checked_bound(data, fill, bg, n - 1);
    }
}

/// Compares a rendered pixmap against the hit test, pixel by pixel in row-major order.
/// `inside[y * width + x]` is the hit test's answer for the center of pixel (`x`, `y`). A pixel
/// that is exactly `fill` or exactly `bg` is counted as checked, and is a mismatch when its being
/// `fill` differs from `inside`; any other color is skipped.
pub fn parity_check(pm: &Pixmap, inside: &Vec<bool>, fill: [u8; 4], bg: [u8; 4]) -> (r: ParityReport)
    requires
        pm.width * pm.height * 4 <= pm.data.len(),
        pm.width * pm.height * 4 <= u32::MAX,
        inside.len() == pm.width * pm.height,
    ensures
        r.checked == checked_count(pm.data@, fill@, bg@, pm.width * pm.height),
        r.mismatches@ == mismatch_list(
            pm.data@,
            inside@,
            fill@,
            bg@,
            pm.width as int,
            pm.width * pm.height,
        ),
{
    let n: usize = (pm.width * pm.height) as usize;
    let w = pm.width;
    let mut checked: usize = 0;
    let mut mismatches: Vec<(u32, u32)> = Vec::new();
    let mut k: usize = 0;
    while k < n
        invariant
            n == pm.width * pm.height,
            w == pm.width,
            n * 4 <= pm.data.len(),
            n * 4 <= u32::MAX,
            inside.len() == n,
            k <= n,
            checked == checked_count(pm.data@, fill@, bg@, k as int),
            mismatches@ == mismatch_list(pm.data@, inside@, fill@, bg@, w as int, k as int),
        decreases n - k,
    {
        let i = k * 4;
        let is_fill = pm.data[i] == fill[0] && pm.data[i + 1] == fill[1] && pm.data[i + 2]
            == fill[2] && pm.data[i + 3] == fill[3];
        let is_bg = pm.data[i] == bg[0] && pm.data[i + 1] == bg[1] && pm.data[i + 2] == bg[2]
            && pm.data[i + 3] == bg[3];
        assert(is_fill == pixel_is(pm.data@, k as int, fill@));
        assert(is_bg == pixel_is(pm.data@, k as int, bg@));
        if is_fill || is_bg {
            proof {
                lemma_checked_bound(pm.data@, fill@, bg@, k as int);
            }
            checked += 1;
            if inside[k] != is_fill {
                assert(w > 0) by (nonlinear_arith)
                    requires
                        k < n,
                        n == w * pm.height,
                ;
                let x = (k % (w as usize)) as u32;
                let y = (k / (w as usize)) as u32;
                assert(k / (w as usize) <= k) by (nonlinear_arith)
                    requires
                        w > 0,
                ;
                mismatches.push((x, y));
            }
        }
        k += 1;
    }
    ParityReport { checked, mismatches }
}

/// Every mismatch is a compared pixel, so a report never lists more mismatches than pixels it
/// checked.
pub proof fn lemma_mismatches_within_checked(
    data: Seq<u8>,
    inside: Seq<bool>,
    fill: Seq<u8>,
    bg: Seq<u8>,
    w: int,
    n: int,
)
    ensures
        mismatch_list(data, inside, fill, bg, w, n).len() <= checked_count(data, fill, bg, n),
    decreases n,
{
    if n > 0 {
        lemma_mismatches_within_checked(data, inside, fill, bg, w, n - 1);
    }
}

/// When the rendered pixels agree with the hit test everywhere they are compared, the report
/// lists no mismatch.
pub proof fn lemma_agreeing_render_passes(
    data: Seq<u8>,
    inside: Seq<bool>,
    fill: Seq<u8>,
    bg: Seq<u8>,
    w: int,
    n: int,
)
    requires
        forall|k: int|
            0 <= k < n && #[trigger] compared(data, k, fill, bg) ==> inside[k] == pixel_is(
                data,
                k,
                fill,
            ),
    ensures
        mismatch_list(data, inside, fill, bg, w, n).len() == 0,
    decreases n,
{
    if n > 0 {
        lemma_agreeing_render_passes(data, inside, fill, bg, w, n - 1);
    }
}

} // verus!
