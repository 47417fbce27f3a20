//! Cover art pixels. A pixel is a `u32` holding four 8-bit channels; the
//! scaling below treats every channel alike, so channel `k` is simply byte
//! `k` of the number, whatever the machine's byte order.
use vstd::prelude::*;
use vstd::arithmetic::div_mod::{lemma_fundamental_div_mod_converse, lemma_fundamental_div_mod, lemma_mod_pos_bound};

verus! {

/// Channels 0 and 2 of a pixel, each in a 16-bit lane.
pub const LANES: u32 = 0x00FF_00FF;

/// The weight that stands for a whole source pixel.
pub const WEIGHT_ONE: u32 = 256;

/// Channel `k` (0 to 3) of a pixel.
pub open spec fn channel(p: u32, k: int) -> int {
    if k == 0 {
        (p & 0xff) as int
    } else if k == 1 {
        ((p >> 8u32) & 0xff) as int
    } else if k == 2 {
        ((p >> 16u32) & 0xff) as int
    } else {
        ((p >> 24u32) & 0xff) as int
    }
}

/// The lanes of a pixel hold its channels 0 and 2, and of the pixel moved
/// down a byte its channels 1 and 3.
proof fn lemma_lanes(p: u32)
    by (bit_vector)
    ensures
        p & LANES == (p & 0xff) + ((p >> 16u32) & 0xff) * 65536,
        (p >> 8u32) & LANES == ((p >> 8u32) & 0xff) + ((p >> 24u32) & 0xff) * 65536,
        p & 0xff <= 255,
        (p >> 8u32) & 0xff <= 255,
        (p >> 16u32) & 0xff <= 255,
        (p >> 24u32) & 0xff <= 255,
{
}

/// Shifting a value made of two lanes shifts each lane, when neither
/// overflows its byte afterwards.
proof fn lemma_unlane(x: u32, lo: u32, hi: u32, s: u32)
    by (bit_vector)
    requires
        x == lo + hi * 65536,
        lo < 65536,
        hi < 65536,
        s <= 8,
        lo >> s < 256,
        hi >> s < 256,
    ensures
        (x >> s) & LANES == (lo >> s) + (hi >> s) * 65536,
{
}

/// Two lane values, one moved up a byte, interleave into a pixel.
proof fn lemma_interleave(x: u32, y: u32, c0: u32, c1: u32, c2: u32, c3: u32)
    by (bit_vector)
    requires
        c0 < 256,
        c1 < 256,
        c2 < 256,
        c3 < 256,
        x == c0 + c2 * 65536,
        y == c1 + c3 * 65536,
    ensures
        (x | (y << 8u32)) & 0xff == c0,
        ((x | (y << 8u32)) >> 8u32) & 0xff == c1,
        ((x | (y << 8u32)) >> 16u32) & 0xff == c2,
        ((x | (y << 8u32)) >> 24u32) & 0xff == c3,
{
}

proof fn lemma_quarter(v: u32)
    by (bit_vector)
    requires
        v <= 1022,
    ensures
        v >> 2u32 == v / 4,
        v >> 2u32 < 256,
{
}

/// Channel `k` of the pixel that halving an image puts at column `x`, row
/// `y`: the rounded mean of the 2 by 2 block at column `2x`, row `2y`, with
/// the last column and row standing in for missing ones.
pub open spec fn box_channel(src: Seq<u32>, w: int, h: int, x: int, y: int, k: int) -> int {
    let top = 2 * y;
    let bottom = if 2 * y + 1 < h { 2 * y + 1 } else { h - 1 };
    let left = 2 * x;
    let right = if 2 * x + 1 < w { 2 * x + 1 } else { w - 1 };
    (channel(src[top * w + left], k) + channel(src[top * w + right], k) + channel(
        src[bottom * w + left],
        k,
    ) + channel(src[bottom * w + right], k) + 2) / 4
}

/// Half of `n`, rounded up.
pub open spec fn half_up(n: int) -> int {
    (n + 1) / 2
}

/// The mean of four pixels, channel by channel, rounded.
fn box_mean(a: u32, b: u32, c: u32, d: u32) -> (r: u32)
    ensures
        forall|k: int|
            0 <= k < 4 ==> #[trigger] channel(r, k) == (channel(a, k) + channel(b, k) + channel(c, k)
                + channel(d, k) + 2) / 4,
{
    proof {
        lemma_lanes(a);
        lemma_lanes(b);
        lemma_lanes(c);
        lemma_lanes(d);
    }
    let low = (a & LANES) + (b & LANES) + (c & LANES) + (d & LANES) + 0x0002_0002;
    let high = ((a >> 8) & LANES) + ((b >> 8) & LANES) + ((c >> 8) & LANES) + ((d >> 8) & LANES)
        + 0x0002_0002;
    let ghost l0 = (channel(a, 0) + channel(b, 0) + channel(c, 0) + channel(d, 0) + 2) as u32;
    let ghost l2 = (channel(a, 2) + channel(b, 2) + channel(c, 2) + channel(d, 2) + 2) as u32;
    let ghost h1 = (channel(a, 1) + channel(b, 1) + channel(c, 1) + channel(d, 1) + 2) as u32;
    let ghost h3 = (channel(a, 3) + channel(b, 3) + channel(c, 3) + channel(d, 3) + 2) as u32;
    proof {
        assert(low == l0 + l2 * 65536);
        assert(high == h1 + h3 * 65536);
        lemma_quarter(l0);
        lemma_quarter(l2);
        lemma_quarter(h1);
        lemma_quarter(h3);
        lemma_unlane(low, l0, l2, 2);
        lemma_unlane(high, h1, h3, 2);
    }
    let x = (low >> 2) & LANES;
    let y = (high >> 2) & LANES;
    proof {
        lemma_interleave(x, y, l0 >> 2u32, h1 >> 2u32, l2 >> 2u32, h3 >> 2u32);
    }
    x | (y << 8)
}

/// Whether channel `k` of every pixel of `out` is the halved image's at
/// that place, in an image `hw` pixels wide.
pub open spec fn halved_prefix(out: Seq<u32>, src: Seq<u32>, w: int, h: int, hw: int) -> bool {
    forall|i: int, k: int|
        0 <= i < out.len() && 0 <= k < 4 ==> #[trigger] channel(out[i], k) == box_channel(
            src,
            w,
            h,
            i % hw,
            i / hw,
            k,
        )
}

/// Halve an image `src_w` by `src_h` pixels (rows one after another),
/// rounding odd sizes up: each pixel becomes the mean of a 2 by 2 block.
pub fn halve(src: &[u32], src_w: usize, src_h: usize) -> (r: Vec<u32>)
    requires
        1 <= src_w,
        1 <= src_h,
        src_w * src_h <= src@.len(),
    ensures
        r@.len() == half_up(src_w as int) * half_up(src_h as int),
        halved_prefix(r@, src@, src_w as int, src_h as int, half_up(src_w as int)),
{
    let n = src.len();
    let half_w = src_w / 2 + src_w % 2;
    let half_h = src_h / 2 + src_h % 2;
    let ghost w = src_w as int;
    let ghost h = src_h as int;
    let mut next: Vec<u32> = Vec::new();
    let mut y: usize = 0;
    while y < half_h
        invariant
            half_w == half_up(w),
            half_h == half_up(h),
            w == src_w,
            h == src_h,
            1 <= src_w,
            1 <= src_h,
            src_w * src_h <= src@.len(),
            n == src@.len(),
            y <= half_h,
            next@.len() == y * half_w,
            halved_prefix(next@, src@, w, h, half_w as int),
        decreases half_h - y,
    {
        let row = y * 2;
        let lower = if row + 1 < src_h { row + 1 } else { src_h - 1 };
        proof {
            assert(row <= h - 1);
            assert(row * w + w <= h * w) by (nonlinear_arith)
                requires row <= h - 1, w >= 1;
            assert(lower * w + w <= h * w) by (nonlinear_arith)
                requires lower <= h - 1, w >= 1;
            assert(h * w == src_w * src_h) by (nonlinear_arith)
                requires h == src_h, w == src_w;
        }
        let top = row * src_w;
        let bottom = lower * src_w;
        let mut x: usize = 0;
        while x < half_w
            invariant
                half_w == half_up(w),
                half_h == half_up(h),
                w == src_w,
                h == src_h,
                1 <= src_w,
                y < half_h,
                row == 2 * y,
                top == row * w,
                bottom == lower * w,
                lower == (if 2 * y + 1 < h { 2 * y + 1 } else { h - 1 }),
                top + w <= src@.len(),
                bottom + w <= src@.len(),
                n == src@.len(),
                x <= half_w,
                next@.len() == y * half_w + x,
                halved_prefix(next@, src@, w, h, half_w as int),
            decreases half_w - x,
        {
            let left = x * 2;
            let right = if left + 1 < src_w { left + 1 } else { src_w - 1 };
            assert(left < w);
            let p = box_mean(src[top + left], src[top + right], src[bottom + left], src[bottom + right]);
            let ghost i = next@.len() as int;
            proof {
                lemma_fundamental_div_mod_converse(i, half_w as int, y as int, x as int);
            }
            next.push(p);
            proof {
                assert forall|j: int, k: int| 0 <= j < next@.len() && 0 <= k < 4 implies #[trigger] channel(next@[j], k)
                    == box_channel(src@, w, h, j % (half_w as int), j / (half_w as int), k) by {
                    if j == i {
                        assert(channel(next@[j], k) == channel(p, k));
                    }
                }
            }
            x = x + 1;
        }
        proof {
            assert((y + 1) * half_w == y * half_w + half_w) by (nonlinear_arith);
        }
        y = y + 1;
    }
    proof {
        assert(half_h * half_w == half_w * half_h) by (nonlinear_arith);
    }
    next
}

/// The sum of the first `t` weights.
pub open spec fn weight_total(ws: Seq<u16>, t: int) -> int
    decreases t,
{
    if t <= 0 {
        0
    } else {
        weight_total(ws, t - 1) + ws[t - 1]
    }
}

/// The sum, over the first `t` taps, of channel `k` of the pixel at
/// `start + tap * stride` times the tap's weight.
pub open spec fn weighted(src: Seq<u32>, start: int, stride: int, ws: Seq<u16>, k: int, t: int) -> int
    decreases t,
{
    if t <= 0 {
        0
    } else {
        weighted(src, start, stride, ws, k, t - 1) + channel(src[start + (t - 1) * stride], k) * ws[t
            - 1]
    }
}

proof fn lemma_total_prefix(ws: Seq<u16>, t: int, u: int)
    requires
        0 <= t <= u,
    ensures
        weight_total(ws, t) <= weight_total(ws, u),
    decreases u - t,
{
    if t < u {
        lemma_total_prefix(ws, t, u - 1);
    }
}

proof fn lemma_weighted_bound(src: Seq<u32>, start: int, stride: int, ws: Seq<u16>, k: int, t: int)
    requires
        0 <= t,
    ensures
        0 <= weighted(src, start, stride, ws, k, t) <= 255 * weight_total(ws, t),
    decreases t,
{
    if t > 0 {
        lemma_weighted_bound(src, start, stride, ws, k, t - 1);
        let c = channel(src[start + (t - 1) * stride], k);
        let w = ws[t - 1] as int;
        lemma_lanes(src[start + (t - 1) * stride]);
        assert(0 <= c * w <= 255 * w) by (nonlinear_arith)
            requires 0 <= c <= 255, 0 <= w;
    }
}

proof fn lemma_byte_of_sum(v: u32)
    by (bit_vector)
    requires
        v <= 65280,
    ensures
        v >> 8u32 == v / 256,
        v >> 8u32 < 256,
{
}

/// One pixel of a filtered image: `taps` source pixels from `start`,
/// `stride` apart, weighted by `weights[wstart..wstart + taps]` (which add
/// up to at most a whole pixel), each channel on its own.
pub fn gather(
    source: &[u32],
    start: usize,
    stride: usize,
    weights: &[u16],
    wstart: usize,
    taps: usize,
) -> (r: u32)
    requires
        1 <= taps,
        wstart + taps <= weights@.len(),
        start + (taps - 1) * stride < source@.len(),
        weight_total(weights@.subrange(wstart as int, wstart + taps), taps as int) <= WEIGHT_ONE,
    ensures
        forall|k: int|
            0 <= k < 4 ==> #[trigger] channel(r, k) == weighted(
                source@,
                start as int,
                stride as int,
                weights@.subrange(wstart as int, wstart + taps),
                k,
                taps as int,
            ) / 256,
{
    let ghost ws = weights@.subrange(wstart as int, wstart + taps);
    let ghost src = source@;
    let n = source.len();
    let wn = weights.len();
    let mut low: u32 = 0;
    let mut high: u32 = 0;
    let mut tap: usize = 0;
    while tap < taps
        invariant
            ws == weights@.subrange(wstart as int, wstart + taps),
            src == source@,
            n == source@.len(),
            wn == weights@.len(),
            1 <= taps,
            wstart + taps <= weights@.len(),
            start + (taps - 1) * stride < source@.len(),
            weight_total(ws, taps as int) <= 256,
            tap <= taps,
            low == weighted(src, start as int, stride as int, ws, 0, tap as int) + weighted(
                src,
                start as int,
                stride as int,
                ws,
                2,
                tap as int,
            ) * 65536,
            high == weighted(src, start as int, stride as int, ws, 1, tap as int) + weighted(
                src,
                start as int,
                stride as int,
                ws,
                3,
                tap as int,
            ) * 65536,
        decreases taps - tap,
    {
        proof {
            assert(tap * stride <= (taps - 1) * stride) by (nonlinear_arith)
                requires tap <= taps - 1;
        }
        let pixel = source[start + tap * stride];
        let weight = weights[wstart + tap] as u32;
        let ghost t = tap as int;
        proof {
            lemma_lanes(pixel);
            assert(ws[t] == weight);
            lemma_total_prefix(ws, t + 1, taps as int);
            lemma_total_prefix(ws, 0, t);
            lemma_weighted_bound(src, start as int, stride as int, ws, 0, t + 1);
            lemma_weighted_bound(src, start as int, stride as int, ws, 1, t + 1);
            lemma_weighted_bound(src, start as int, stride as int, ws, 2, t + 1);
            lemma_weighted_bound(src, start as int, stride as int, ws, 3, t + 1);
            let c0 = channel(pixel, 0);
            let c1 = channel(pixel, 1);
            let c2 = channel(pixel, 2);
            let c3 = channel(pixel, 3);
            let wi = weight as int;
            assert((c0 + c2 * 65536) * wi == c0 * wi + (c2 * wi) * 65536) by (nonlinear_arith);
            assert((c1 + c3 * 65536) * wi == c1 * wi + (c3 * wi) * 65536) by (nonlinear_arith);
            assert(0 <= c0 * wi <= 255 * 256 && 0 <= c2 * wi <= 255 * 256 && 0 <= c1 * wi <= 255 * 256 && 0
                <= c3 * wi <= 255 * 256) by (nonlinear_arith)
                requires 0 <= c0 <= 255, 0 <= c1 <= 255, 0 <= c2 <= 255, 0 <= c3 <= 255, 0 <= wi <= 256;
        }
        low = low + (pixel & LANES) * weight;
        high = high + ((pixel >> 8) & LANES) * weight;
        tap = tap + 1;
    }
    let ghost l0 = weighted(src, start as int, stride as int, ws, 0, taps as int);
    let ghost h1 = weighted(src, start as int, stride as int, ws, 1, taps as int);
    let ghost l2 = weighted(src, start as int, stride as int, ws, 2, taps as int);
    let ghost h3 = weighted(src, start as int, stride as int, ws, 3, taps as int);
    proof {
        lemma_weighted_bound(src, start as int, stride as int, ws, 0, taps as int);
        lemma_weighted_bound(src, start as int, stride as int, ws, 1, taps as int);
        lemma_weighted_bound(src, start as int, stride as int, ws, 2, taps as int);
        lemma_weighted_bound(src, start as int, stride as int, ws, 3, taps as int);
        lemma_byte_of_sum(l0 as u32);
        lemma_byte_of_sum(h1 as u32);
        lemma_byte_of_sum(l2 as u32);
        lemma_byte_of_sum(h3 as u32);
        lemma_unlane(low, l0 as u32, l2 as u32, 8);
        lemma_unlane(high, h1 as u32, h3 as u32, 8);
    }
    let x = (low >> 8) & LANES;
    let y = (high >> 8) & LANES;
    proof {
        lemma_interleave(x, y, (l0 as u32) >> 8u32, (h1 as u32) >> 8u32, (l2 as u32) >> 8u32, (h3 as u32) >> 8u32);
    }
    x | (y << 8)
}

/// The pixel with the given channels.
pub open spec fn pack(c0: int, c1: int, c2: int, c3: int) -> u32 {
    (c0 + c1 * 256 + c2 * 65536 + c3 * 16777216) as u32
}

proof fn lemma_pack(p: u32)
    by (bit_vector)
    ensures
        p == ((p & 0xff) + ((p >> 8u32) & 0xff) * 256 + ((p >> 16u32) & 0xff) * 65536 + ((p >> 24u32) & 0xff)
            * 16777216) as u32,
{
}

/// An image halved: `half_up(w)` by `half_up(h)` pixels, each the rounded
/// mean of its 2 by 2 block.
pub open spec fn halved(src: Seq<u32>, w: int, h: int) -> Seq<u32> {
    let hw = half_up(w);
    Seq::new(
        (hw * half_up(h)) as nat,
        |i: int|
            pack(
                box_channel(src, w, h, i % hw, i / hw, 0),
                box_channel(src, w, h, i % hw, i / hw, 1),
                box_channel(src, w, h, i % hw, i / hw, 2),
                box_channel(src, w, h, i % hw, i / hw, 3),
            ),
    )
}

/// An image `w` by `h` halved for as long as both sides stay at least twice
/// the wanted size, with its final size.
pub open spec fn reduced(src: Seq<u32>, w: int, h: int, width: int, height: int) -> (Seq<u32>, int, int)
    decreases w,
{
    if 1 <= width && 1 <= height && w >= 2 * width && h >= 2 * height {
        reduced(halved(src, w, h), half_up(w), half_up(h), width, height)
    } else {
        (src, w, h)
    }
}

/// Halving stops at a size no smaller than the wanted one, with at least
/// one side under twice the wanted side, and the pixels fill that size.
pub proof fn lemma_reduced_size(src: Seq<u32>, w: int, h: int, width: int, height: int)
    requires
        1 <= width <= w,
        1 <= height <= h,
        src.len() == w * h,
    ensures
        ({
            let (pixels, rw, rh) = reduced(src, w, h, width, height);
            &&& width <= rw <= w
            &&& height <= rh <= h
            &&& !(rw >= 2 * width && rh >= 2 * height)
            &&& pixels.len() == rw * rh
        }),
    decreases w,
{
    if w >= 2 * width && h >= 2 * height {
        lemma_reduced_size(halved(src, w, h), half_up(w), half_up(h), width, height);
    }
}

/// An image of `n` pixels all of colour `p`.
pub open spec fn uniform(n: int, p: u32) -> Seq<u32> {
    Seq::new(n as nat, |i: int| p)
}

/// The weight of a tap whose rounded running sum is `sum` when `assigned`
/// has been handed out already: what is still owed, none if nothing is,
/// and at most a whole pixel.
pub open spec fn owed_weight(sum: int, assigned: int) -> int {
    let d = if sum > assigned { sum - assigned } else { 0 };
    if d > 256 { 256 } else { d }
}

/// The weights of the first `t` taps made from the rounded running sums
/// of their exact weights: each tap gets what its running sum still owes.
pub open spec fn rounded_weights(sums: Seq<u32>, t: int) -> Seq<u16>
    decreases t,
{
    if t <= 0 {
        Seq::empty()
    } else {
        let prev = rounded_weights(sums, t - 1);
        prev.push(owed_weight(sums[t - 1] as int, weight_total(prev, t - 1)) as u16)
    }
}

/// The largest of the first `t` running sums, or 0.
pub open spec fn running_max(sums: Seq<u32>, t: int) -> int
    decreases t,
{
    if t <= 0 {
        0
    } else {
        let m = running_max(sums, t - 1);
        if sums[t - 1] as int > m { sums[t - 1] as int } else { m }
    }
}

/// The weight total of a sequence depends only on its first `t` entries.
proof fn lemma_total_of_push(ws: Seq<u16>, w: u16, t: int)
    requires
        0 <= t <= ws.len(),
    ensures
        weight_total(ws.push(w), t) == weight_total(ws, t),
    decreases t,
{
    if t > 0 {
        lemma_total_of_push(ws, w, t - 1);
    }
}

/// While no running sum passes a whole pixel, the weights made from them
/// add up to the largest running sum.
pub proof fn lemma_rounded_total(sums: Seq<u32>, t: int)
    requires
        0 <= t <= sums.len(),
        forall|i: int| 0 <= i < t ==> #[trigger] sums[i] <= 256,
    ensures
        rounded_weights(sums, t).len() == t,
        weight_total(rounded_weights(sums, t), t) == running_max(sums, t),
        running_max(sums, t) <= 256,
    decreases t,
{
    if t > 0 {
        lemma_rounded_total(sums, t - 1);
        let prev = rounded_weights(sums, t - 1);
        let w = owed_weight(sums[t - 1] as int, weight_total(prev, t - 1));
        lemma_total_of_push(prev, w as u16, t - 1);
        assert(prev.push(w as u16)[t - 1] == w as u16);
    }
}

/// Weights made from running sums that end at a whole pixel, none above
/// it, add up to exactly a whole pixel: the condition under which
/// filtering keeps a uniform colour (`lemma_resample_uniform`).
pub proof fn lemma_rounded_whole(sums: Seq<u32>)
    requires
        sums.len() > 0,
        sums.last() == 256,
        forall|i: int| 0 <= i < sums.len() ==> #[trigger] sums[i] <= 256,
    ensures
        weight_total(rounded_weights(sums, sums.len() as int), sums.len() as int) == 256,
{
    lemma_rounded_total(sums, sums.len() as int);
    lemma_rounded_total(sums, sums.len() - 1);
}

/// The tap weights of one position from the rounded running sums of its
/// exact weights (computed in floating point by the caller).
pub fn weights_from_sums(sums: &[u32]) -> (r: Vec<u16>)
    requires
        sums.len() <= 0x100_0000,
    ensures
        r@ == rounded_weights(sums@, sums@.len() as int),
{
    let mut out: Vec<u16> = Vec::new();
    let mut assigned: u32 = 0;
    let mut t: usize = 0;
    while t < sums.len()
        invariant
            t <= sums.len() <= 0x100_0000,
            out@ == rounded_weights(sums@, t as int),
            out@.len() == t,
            assigned == weight_total(out@, t as int),
            assigned <= 256 * t,
        decreases sums.len() - t,
    {
        let d = if sums[t] > assigned {
            sums[t] - assigned
        } else {
            0
        };
        let w: u32 = if d > 256 {
            256
        } else {
            d
        };
        let ghost before = out@;
        out.push(w as u16);
        proof {
            lemma_total_of_push(before, w as u16, t as int);
            assert(out@[t as int] == w as u16);
        }
        assigned = assigned + w;
        t = t + 1;
    }
    out
}

/// Halving an image of one colour gives an image of that colour.
pub proof fn lemma_halved_uniform(w: int, h: int, p: u32)
    requires
        1 <= w,
        1 <= h,
    ensures
        halved(uniform(w * h, p), w, h) == uniform(half_up(w) * half_up(h), p),
{
    let src = uniform(w * h, p);
    let hw = half_up(w);
    let hh = half_up(h);
    lemma_pack(p);
    lemma_lanes(p);
    assert forall|i: int| 0 <= i < hw * hh implies #[trigger] halved(src, w, h)[i] == p by {
        lemma_fundamental_div_mod(i, hw);
        lemma_mod_pos_bound(i, hw);
        let x = i % hw;
        let y = i / hw;
        assert(0 <= y < hh) by (nonlinear_arith)
            requires i == hw * y + x, 0 <= x < hw, 0 <= i < hw * hh, hw >= 1;
        let top = 2 * y;
        let bottom = if 2 * y + 1 < h { 2 * y + 1 } else { h - 1 };
        let left = 2 * x;
        let right = if 2 * x + 1 < w { 2 * x + 1 } else { w - 1 };
        assert(0 <= top * w + left && top * w + right < w * h && 0 <= bottom * w + left && bottom * w + right
            < w * h) by (nonlinear_arith)
            requires 0 <= top <= h - 1, 0 <= bottom <= h - 1, 0 <= left <= right <= w - 1, w >= 1;
        assert forall|k: int| 0 <= k < 4 implies box_channel(src, w, h, x, y, k) == channel(p, k) by {}
    }
    assert(halved(src, w, h) =~= uniform(hw * hh, p));
}

/// Halving an image of one colour, as often as `reduce` does, keeps it of
/// that colour.
pub proof fn lemma_reduced_uniform(w: int, h: int, width: int, height: int, p: u32)
    requires
        1 <= w,
        1 <= h,
    ensures
        ({
            let (pixels, rw, rh) = reduced(uniform(w * h, p), w, h, width, height);
            pixels == uniform(rw * rh, p)
        }),
    decreases w,
{
    if 1 <= width && 1 <= height && w >= 2 * width && h >= 2 * height {
        lemma_halved_uniform(w, h, p);
        lemma_reduced_uniform(half_up(w), half_up(h), width, height, p);
    }
}

proof fn lemma_weighted_uniform(src: Seq<u32>, start: int, stride: int, ws: Seq<u16>, k: int, t: int, p: u32)
    requires
        0 <= t,
        forall|j: int| 0 <= j < t ==> 0 <= #[trigger] (start + j * stride) < src.len() && src[start + j * stride] == p,
    ensures
        weighted(src, start, stride, ws, k, t) == channel(p, k) * weight_total(ws, t),
    decreases t,
{
    if t > 0 {
        assert(0 <= start + (t - 1) * stride < src.len());
        lemma_weighted_uniform(src, start, stride, ws, k, t - 1, p);
        let c = channel(p, k);
        let a = weight_total(ws, t - 1);
        let w = ws[t - 1] as int;
        assert(c * a + c * w == c * (a + w)) by (nonlinear_arith);
    }
}

proof fn lemma_column_uniform(pixels: Seq<u32>, src_w: int, ha: &Axis, va: &Axis, x: int, y: int, k: int, t: int, c: int)
    requires
        0 <= t,
        forall|j: int| 0 <= j < t ==> #[trigger] row_channel(pixels, src_w, ha, va.first@[y] + j, x, k) == c,
    ensures
        column_sum(pixels, src_w, ha, va, x, y, k, t) == c * weight_total(va.tap_weights(y), t),
    decreases t,
{
    if t > 0 {
        assert(row_channel(pixels, src_w, ha, va.first@[y] + (t - 1), x, k) == c);
        lemma_column_uniform(pixels, src_w, ha, va, x, y, k, t - 1, c);
        let a = weight_total(va.tap_weights(y), t - 1);
        let w = va.tap_weights(y)[t - 1] as int;
        assert(c * a + c * w == c * (a + w)) by (nonlinear_arith);
    }
}

/// Filtering an image of one colour with weights that add up to a whole
/// pixel at every position gives that colour everywhere.
pub proof fn lemma_resample_uniform(
    src_w: int,
    src_h: int,
    width: int,
    height: int,
    ha: &Axis,
    va: &Axis,
    p: u32,
    x: int,
    y: int,
    k: int,
)
    requires
        1 <= src_w,
        1 <= src_h,
        ha.fits(src_w, width),
        va.fits(src_h, height),
        forall|i: int| 0 <= i < width ==> #[trigger] weight_total(ha.tap_weights(i), ha.taps as int) == 256,
        forall|i: int| 0 <= i < height ==> #[trigger] weight_total(va.tap_weights(i), va.taps as int) == 256,
        0 <= x < width,
        0 <= y < height,
        0 <= k < 4,
    ensures
        resampled_channel(uniform(src_w * src_h, p), src_w, ha, va, x, y, k) == channel(p, k),
{
    let pixels = uniform(src_w * src_h, p);
    let c = channel(p, k);
    let f = ha.first@[x];
    assert(f + ha.taps <= src_w);
    assert(va.first@[y] + va.taps <= src_h);
    assert(weight_total(ha.tap_weights(x), ha.taps as int) == 256);
    assert(weight_total(va.tap_weights(y), va.taps as int) == 256);
    assert forall|j: int| 0 <= j < va.taps implies #[trigger] row_channel(pixels, src_w, ha, va.first@[y] + j, x, k) == c by {
        let row = va.first@[y] + j;
        assert(0 <= row < src_h);
        assert forall|m: int| 0 <= m < ha.taps implies 0 <= #[trigger] (row * src_w + f + m * 1) < pixels.len()
            && pixels[row * src_w + f + m * 1] == p by {
            assert(0 <= row * src_w + f + m < src_w * src_h) by (nonlinear_arith)
                requires 0 <= row < src_h, 0 <= f, f + m < src_w, 0 <= m;
        }
        lemma_weighted_uniform(pixels, row * src_w + f, 1, ha.tap_weights(x), k, ha.taps as int, p);
    }
    lemma_column_uniform(pixels, src_w, ha, va, x, y, k, va.taps as int, c);
}

/// A copy of a list of pixels.
fn copy_pixels(src: &[u32]) -> (r: Vec<u32>)
    ensures
        r@ == src@,
{
    let mut out: Vec<u32> = Vec::new();
    let mut i: usize = 0;
    while i < src.len()
        invariant
            i <= src@.len(),
            out@ == src@.take(i as int),
        decreases src@.len() - i,
    {
        out.push(src[i]);
        proof {
            assert(src@.take(i + 1) =~= src@.take(i as int).push(src@[i as int]));
        }
        i = i + 1;
    }
    proof {
        assert(src@.take(src@.len() as int) =~= src@);
    }
    out
}

/// Halving gives the halved image.
fn halve_exact(src: &[u32], src_w: usize, src_h: usize) -> (r: Vec<u32>)
    requires
        1 <= src_w,
        1 <= src_h,
        src_w * src_h <= src@.len(),
    ensures
        r@ == halved(src@, src_w as int, src_h as int),
{
    let r = halve(src, src_w, src_h);
    proof {
        let hw = half_up(src_w as int);
        let want = halved(src@, src_w as int, src_h as int);
        assert forall|i: int| 0 <= i < r@.len() implies r@[i] == want[i] by {
            let p = r@[i];
            lemma_pack(p);
            assert(channel(p, 0) == box_channel(src@, src_w as int, src_h as int, i % hw, i / hw, 0));
            assert(channel(p, 1) == box_channel(src@, src_w as int, src_h as int, i % hw, i / hw, 1));
            assert(channel(p, 2) == box_channel(src@, src_w as int, src_h as int, i % hw, i / hw, 2));
            assert(channel(p, 3) == box_channel(src@, src_w as int, src_h as int, i % hw, i / hw, 3));
        }
        assert(r@ =~= want);
    }
    r
}

/// Halve an image `src_w` by `src_h` pixels for as long as both sides stay
/// at least twice `width` by `height`, so that filtering down to that size
/// only ever sees a small source. Gives the pixels and their size.
pub fn reduce(src: &[u32], src_w: usize, src_h: usize, width: usize, height: usize) -> (r: (
    Vec<u32>,
    usize,
    usize,
))
    requires
        1 <= width,
        1 <= height,
        1 <= src_w,
        1 <= src_h,
        src_w * src_h <= src@.len(),
    ensures
        (r.0@, r.1 as int, r.2 as int) == reduced(src@, src_w as int, src_h as int, width as int, height as int),
{
    if !(src_w / 2 >= width && src_h / 2 >= height) {
        return (copy_pixels(src), src_w, src_h);
    }
    let mut current = halve_exact(src, src_w, src_h);
    let mut w = src_w / 2 + src_w % 2;
    let mut h = src_h / 2 + src_h % 2;
    proof {
        assert(w * h <= src_w * src_h) by (nonlinear_arith)
            requires w <= src_w, h <= src_h, 0 <= w, 0 <= h;
    }
    while w / 2 >= width && h / 2 >= height
        invariant
            1 <= width,
            1 <= height,
            1 <= w,
            1 <= h,
            current@.len() == w * h,
            reduced(src@, src_w as int, src_h as int, width as int, height as int) == reduced(
                current@,
                w as int,
                h as int,
                width as int,
                height as int,
            ),
        decreases w,
    {
        let next = halve_exact(current.as_slice(), w, h);
        current = next;
        w = w / 2 + w % 2;
        h = h / 2 + h % 2;
    }
    (current, w, h)
}

/// How one axis of an image is filtered: destination position `i` takes
/// `taps` source positions from `first[i]`, weighted by
/// `weights[i * taps..(i + 1) * taps]`.
pub struct Axis {
    pub taps: usize,
    pub first: Vec<usize>,
    pub weights: Vec<u16>,
}

impl Axis {
    /// The weights of destination position `i`.
    pub open spec fn tap_weights(&self, i: int) -> Seq<u16> {
        self.weights@.subrange(i * self.taps, i * self.taps + self.taps)
    }

    /// Whether the axis maps `source_len` positions onto `dest_len`: every
    /// window lies inside the source, windows never move back, and each
    /// position's weights add up to at most a whole pixel.
    pub open spec fn fits(&self, source_len: int, dest_len: int) -> bool {
        &&& 1 <= self.taps <= source_len
        &&& 1 <= dest_len
        &&& self.first@.len() == dest_len
        &&& self.weights@.len() == dest_len * self.taps
        &&& forall|i: int| 0 <= i < dest_len ==> #[trigger] self.first@[i] + self.taps <= source_len
        &&& forall|i: int, j: int|
            0 <= i <= j < dest_len ==> #[trigger] self.first@[i] <= #[trigger] self.first@[j]
        &&& forall|i: int|
            0 <= i < dest_len ==> #[trigger] weight_total(self.tap_weights(i), self.taps as int) <= 256
    }
}

/// Channel `k` of column `x` of source row `row` after the horizontal pass.
pub open spec fn row_channel(pixels: Seq<u32>, src_w: int, ha: &Axis, row: int, x: int, k: int) -> int {
    weighted(pixels, row * src_w + ha.first@[x], 1, ha.tap_weights(x), k, ha.taps as int) / 256
}

/// The first `t` taps of the vertical pass at column `x`, row `y`, on
/// channel `k` of the horizontally filtered rows.
pub open spec fn column_sum(
    pixels: Seq<u32>,
    src_w: int,
    ha: &Axis,
    va: &Axis,
    x: int,
    y: int,
    k: int,
    t: int,
) -> int
    decreases t,
{
    if t <= 0 {
        0
    } else {
        column_sum(pixels, src_w, ha, va, x, y, k, t - 1) + row_channel(
            pixels,
            src_w,
            ha,
            va.first@[y] + t - 1,
            x,
            k,
        ) * va.tap_weights(y)[t - 1]
    }
}

/// Channel `k` of the resampled pixel at column `x`, row `y`: the rows
/// filtered across, then the columns filtered down.
pub open spec fn resampled_channel(pixels: Seq<u32>, src_w: int, ha: &Axis, va: &Axis, x: int, y: int, k: int) -> int {
    column_sum(pixels, src_w, ha, va, x, y, k, va.taps as int) / 256
}

/// Whether the filtered rows from `row_start` are laid out `width` pixels
/// to a row in `scratch`.
pub open spec fn rows_filtered(scratch: Seq<u32>, pixels: Seq<u32>, src_w: int, ha: &Axis, row_start: int, width: int) -> bool {
    forall|j: int, k: int|
        0 <= j < scratch.len() && 0 <= k < 4 ==> #[trigger] channel(scratch[j], k) == row_channel(
            pixels,
            src_w,
            ha,
            row_start + j / width,
            j % width,
            k,
        )
}

proof fn lemma_column(
    scratch: Seq<u32>,
    pixels: Seq<u32>,
    src_w: int,
    ha: &Axis,
    va: &Axis,
    row_start: int,
    width: int,
    x: int,
    y: int,
    k: int,
    t: int,
)
    requires
        1 <= width,
        0 <= x < width,
        0 <= k < 4,
        0 <= t,
        row_start <= va.first@[y],
        (va.first@[y] - row_start + t) * width <= scratch.len(),
        rows_filtered(scratch, pixels, src_w, ha, row_start, width),
    ensures
        weighted(scratch, (va.first@[y] - row_start) * width + x, width, va.tap_weights(y), k, t)
            == column_sum(pixels, src_w, ha, va, x, y, k, t),
    decreases t,
{
    if t > 0 {
        let d = va.first@[y] - row_start;
        assert((d + t - 1) * width <= (d + t) * width) by (nonlinear_arith)
            requires width >= 1;
        lemma_column(scratch, pixels, src_w, ha, va, row_start, width, x, y, k, t - 1);
        let j = d * width + x + (t - 1) * width;
        assert(j == (d + t - 1) * width + x) by (nonlinear_arith)
            requires j == d * width + x + (t - 1) * width;
        lemma_fundamental_div_mod_converse(j, width, d + t - 1, x);
        assert(j < scratch.len()) by (nonlinear_arith)
            requires j == (d + t - 1) * width + x, x < width, (d + t) * width <= scratch.len();
        assert(channel(scratch[j], k) == row_channel(pixels, src_w, ha, row_start + j / width, j % width, k));
    }
}

/// Filter an image `src_w` by `src_h` pixels down to `width` by `height`:
/// each row across with `horizontal`, then each column down with
/// `vertical`.
pub fn resample(
    pixels: &[u32],
    src_w: usize,
    src_h: usize,
    width: usize,
    height: usize,
    horizontal: &Axis,
    vertical: &Axis,
) -> (r: Vec<u32>)
    requires
        src_w * src_h <= pixels@.len(),
        horizontal.fits(src_w as int, width as int),
        vertical.fits(src_h as int, height as int),
        width * src_h <= usize::MAX,
        width * height <= usize::MAX,
    ensures
        r@.len() == width * height,
        forall|i: int, k: int|
            0 <= i < r@.len() && 0 <= k < 4 ==> #[trigger] channel(r@[i], k) == resampled_channel(
                pixels@,
                src_w as int,
                horizontal,
                vertical,
                i % (width as int),
                i / (width as int),
                k,
            ),
{
    let ghost sw = src_w as int;
    let ghost sh = src_h as int;
    let row_start = vertical.first[0];
    let last = vertical.first[height - 1] + vertical.taps;
    let rows = (if last < src_h { last } else { src_h }) - row_start;
    let htaps = horizontal.taps;
    let vtaps = vertical.taps;
    let n = pixels.len();
    let hn = horizontal.weights.len();
    let vn = vertical.weights.len();
    proof {
        assert(vertical.first@[0] <= vertical.first@[height - 1]);
        assert(rows == last - row_start);
    }
    let mut scratch: Vec<u32> = Vec::new();
    let mut row: usize = 0;
    while row < rows
        invariant
            sw == src_w,
            sh == src_h,
            src_w * src_h <= pixels@.len(),
            horizontal.fits(sw, width as int),
            vertical.fits(sh, height as int),
            width * src_h <= usize::MAX,
            htaps == horizontal.taps,
            n == pixels@.len(),
            hn == horizontal.weights@.len(),
            row_start + rows <= src_h,
            row <= rows,
            scratch@.len() == row * width,
            rows_filtered(scratch@, pixels@, sw, horizontal, row_start as int, width as int),
        decreases rows - row,
    {
        let src_row = row_start + row;
        proof {
            assert(src_row * sw + sw <= sh * sw) by (nonlinear_arith)
                requires src_row < sh, sw >= 0;
            assert(sh * sw == src_w * src_h) by (nonlinear_arith)
                requires sh == src_h, sw == src_w;
        }
        let base = src_row * src_w;
        let mut i: usize = 0;
        while i < width
            invariant
                sw == src_w,
                horizontal.fits(sw, width as int),
                htaps == horizontal.taps,
                base == src_row * sw,
                base + sw <= pixels@.len(),
                n == pixels@.len(),
                hn == horizontal.weights@.len(),
                i <= width,
                row < rows,
                src_row == row_start + row,
                row_start + rows <= src_h,
                width * src_h <= usize::MAX,
                scratch@.len() == row * width + i,
                rows_filtered(scratch@, pixels@, sw, horizontal, row_start as int, width as int),
            decreases width - i,
        {
            proof {
                assert(i * htaps + htaps <= width * htaps) by (nonlinear_arith)
                    requires i < width;
                assert(horizontal.first@[i as int] + htaps <= sw);
                assert(weight_total(horizontal.tap_weights(i as int), htaps as int) <= 256);
                assert(horizontal.tap_weights(i as int) == horizontal.weights@.subrange(
                    (i * htaps) as int,
                    i * htaps + htaps,
                ));
            }
            let p = gather(pixels, base + horizontal.first[i], 1, &horizontal.weights, i * htaps, htaps);
            let ghost j = scratch@.len() as int;
            proof {
                lemma_fundamental_div_mod_converse(j, width as int, row as int, i as int);
                assert(horizontal.tap_weights(i as int) == horizontal.weights@.subrange(
                    (i * htaps) as int,
                    i * htaps + htaps,
                ));
                assert((row + 1) * width <= rows * width) by (nonlinear_arith)
                    requires row < rows, width >= 0;
                assert(rows * width <= src_h * width) by (nonlinear_arith)
                    requires rows <= src_h, width >= 0;
            }
            scratch.push(p);
            proof {
                assert forall|jj: int, k: int| 0 <= jj < scratch@.len() && 0 <= k < 4 implies #[trigger] channel(scratch@[jj], k)
                    == row_channel(pixels@, sw, horizontal, row_start + jj / (width as int), jj % (width as int), k) by {
                    if jj == j {
                        assert(channel(scratch@[jj], k) == channel(p, k));
                    }
                }
            }
            i = i + 1;
        }
        proof {
            assert((row + 1) * width == row * width + width) by (nonlinear_arith);
        }
        row = row + 1;
    }
    let sn = scratch.len();
    let mut out: Vec<u32> = Vec::new();
    let mut y: usize = 0;
    while y < height
        invariant
            sw == src_w,
            vertical.fits(sh, height as int),
            vtaps == vertical.taps,
            sn == scratch@.len(),
            vn == vertical.weights@.len(),
            row_start == vertical.first@[0],
            rows + row_start == vertical.first@[height - 1] + vtaps,
            scratch@.len() == rows * width,
            1 <= width,
            width * height <= usize::MAX,
            rows_filtered(scratch@, pixels@, sw, horizontal, row_start as int, width as int),
            y <= height,
            out@.len() == y * width,
            forall|i: int, k: int|
                0 <= i < out@.len() && 0 <= k < 4 ==> #[trigger] channel(out@[i], k) == resampled_channel(
                    pixels@,
                    sw,
                    horizontal,
                    vertical,
                    i % (width as int),
                    i / (width as int),
                    k,
                ),
        decreases height - y,
    {
        let d = vertical.first[y] - row_start;
        proof {
            assert(vertical.first@[0] <= vertical.first@[y as int]);
            assert(vertical.first@[y as int] <= vertical.first@[height - 1]);
            assert(d + vtaps <= rows);
            assert((d + vtaps) * width <= rows * width) by (nonlinear_arith)
                requires d + vtaps <= rows, width >= 0;
            assert(d * width + width <= rows * width) by (nonlinear_arith)
                requires d + vtaps <= rows, vtaps >= 1, width >= 0;
        }
        let top = d * width;
        let mut x: usize = 0;
        while x < width
            invariant
                sw == src_w,
                vertical.fits(sh, height as int),
                vtaps == vertical.taps,
                sn == scratch@.len(),
                vn == vertical.weights@.len(),
                row_start == vertical.first@[0],
                scratch@.len() == rows * width,
                1 <= width,
                width * height <= usize::MAX,
                rows_filtered(scratch@, pixels@, sw, horizontal, row_start as int, width as int),
                y < height,
                d == vertical.first@[y as int] - row_start,
                row_start <= vertical.first@[y as int],
                top == d * width,
                (d + vtaps) * width <= scratch@.len(),
                x <= width,
                out@.len() == y * width + x,
                forall|i: int, k: int|
                    0 <= i < out@.len() && 0 <= k < 4 ==> #[trigger] channel(out@[i], k) == resampled_channel(
                        pixels@,
                        sw,
                        horizontal,
                        vertical,
                        i % (width as int),
                        i / (width as int),
                        k,
                    ),
            decreases width - x,
        {
            proof {
                assert(y * vtaps + vtaps <= height * vtaps) by (nonlinear_arith)
                    requires y < height;
                assert(top + x + (vtaps - 1) * width < scratch@.len()) by (nonlinear_arith)
                    requires top == d * width, x < width, (d + vtaps) * width <= scratch@.len(), vtaps >= 1;
                assert(weight_total(vertical.tap_weights(y as int), vtaps as int) <= 256);
                assert(vertical.tap_weights(y as int) == vertical.weights@.subrange(
                    (y * vtaps) as int,
                    y * vtaps + vtaps,
                ));
            }
            let p = gather(scratch.as_slice(), top + x, width, &vertical.weights, y * vtaps, vtaps);
            let ghost i = out@.len() as int;
            proof {
                lemma_fundamental_div_mod_converse(i, width as int, y as int, x as int);
                assert(vertical.tap_weights(y as int) == vertical.weights@.subrange(
                    (y * vtaps) as int,
                    y * vtaps + vtaps,
                ));
                assert forall|k: int| 0 <= k < 4 implies weighted(scratch@, top + x, width as int, vertical.tap_weights(y as int), k, vtaps as int)
                    == column_sum(pixels@, sw, horizontal, vertical, x as int, y as int, k, vtaps as int) by {
                    lemma_column(scratch@, pixels@, sw, horizontal, vertical, row_start as int, width as int, x as int, y as int, k, vtaps as int);
                }
                assert((y + 1) * width <= height * width) by (nonlinear_arith)
                    requires y < height, width >= 0;
            }
            out.push(p);
            proof {
                assert forall|ii: int, k: int| 0 <= ii < out@.len() && 0 <= k < 4 implies #[trigger] channel(out@[ii], k)
                    == resampled_channel(pixels@, sw, horizontal, vertical, ii % (width as int), ii / (width as int), k) by {
                    if ii == i {
                        assert(channel(out@[ii], k) == channel(p, k));
                    }
                }
            }
            x = x + 1;
        }
        proof {
            assert((y + 1) * width == y * width + width) by (nonlinear_arith);
        }
        y = y + 1;
    }
    proof {
        assert(height * width == width * height) by (nonlinear_arith);
    }
    out
}

/// Whether an axis's weights at every one of its `n` positions were made
/// from rounded running sums that end at a whole pixel, none above it.
pub open spec fn made_from_whole_sums(a: &Axis, sums: Seq<Seq<u32>>, n: int) -> bool {
    forall|i: int|
        0 <= i < n ==> {
            &&& (#[trigger] sums[i]).len() == a.taps
            &&& sums[i].len() > 0
            &&& sums[i].last() == 256
            &&& forall|t: int| 0 <= t < sums[i].len() ==> #[trigger] sums[i][t] <= 256
            &&& a.tap_weights(i) == rounded_weights(sums[i], a.taps as int)
        }
}

/// Scaling an image of one colour with weights made from running sums that
/// end at a whole pixel gives that colour at every pixel and channel.
pub proof fn lemma_scaled_uniform(
    src_w: int,
    src_h: int,
    width: int,
    height: int,
    ha: &Axis,
    va: &Axis,
    hsums: Seq<Seq<u32>>,
    vsums: Seq<Seq<u32>>,
    p: u32,
    x: int,
    y: int,
    k: int,
)
    requires
        1 <= src_w,
        1 <= src_h,
        ha.fits(src_w, width),
        va.fits(src_h, height),
        made_from_whole_sums(ha, hsums, width),
        made_from_whole_sums(va, vsums, height),
        0 <= x < width,
        0 <= y < height,
        0 <= k < 4,
    ensures
        resampled_channel(uniform(src_w * src_h, p), src_w, ha, va, x, y, k) == channel(p, k),
{
    assert forall|i: int| 0 <= i < width implies #[trigger] weight_total(ha.tap_weights(i), ha.taps as int) == 256 by {
        lemma_rounded_whole(hsums[i]);
    }
    assert forall|i: int| 0 <= i < height implies #[trigger] weight_total(va.tap_weights(i), va.taps as int) == 256 by {
        lemma_rounded_whole(vsums[i]);
    }
    lemma_resample_uniform(src_w, src_h, width, height, ha, va, p, x, y, k);
}

/// A colour value scaled by an alpha value, both out of 255, rounded.
pub open spec fn premultiplied(v: int, a: int) -> int {
    (v * a + 127) / 255
}

fn scale_by_alpha(v: u8, a: u8) -> (r: u8)
    ensures
        r == premultiplied(v as int, a as int),
{
    proof {
        assert(0 <= (v as int) * (a as int) <= 255 * 255) by (nonlinear_arith)
            requires 0 <= v <= 255, 0 <= a <= 255;
    }
    (((v as u32) * (a as u32) + 127) / 255) as u8
}

/// Premultiply decoded RGBA bytes: in each group of four, the first three
/// values are scaled by the fourth, which stays.
pub fn premultiply_rgba(bytes: &mut Vec<u8>)
    requires
        old(bytes)@.len() % 4 == 0,
    ensures
        final(bytes)@.len() == old(bytes)@.len(),
        forall|i: int|
            0 <= i < old(bytes)@.len() ==> #[trigger] final(bytes)@[i] == if i % 4 == 3 {
                old(bytes)@[i] as int
            } else {
                premultiplied(old(bytes)@[i] as int, old(bytes)@[i - i % 4 + 3] as int)
            },
{
    let ghost before = bytes@;
    let n = bytes.len();
    let mut p: usize = 0;
    while p < n
        invariant
            n == bytes@.len(),
            before.len() == n,
            n % 4 == 0,
            p % 4 == 0,
            p <= n,
            forall|i: int|
                p <= i < n ==> #[trigger] bytes@[i] == before[i],
            forall|i: int|
                0 <= i < p ==> #[trigger] bytes@[i] == if i % 4 == 3 {
                    before[i] as int
                } else {
                    premultiplied(before[i] as int, before[i - i % 4 + 3] as int)
                },
        decreases n - p,
    {
        let a = bytes[p + 3];
        let r = scale_by_alpha(bytes[p], a);
        let g = scale_by_alpha(bytes[p + 1], a);
        let b = scale_by_alpha(bytes[p + 2], a);
        bytes.set(p, r);
        bytes.set(p + 1, g);
        bytes.set(p + 2, b);
        proof {
            assert forall|i: int| 0 <= i < p + 4 implies #[trigger] bytes@[i] == if i % 4 == 3 {
                before[i] as int
            } else {
                premultiplied(before[i] as int, before[i - i % 4 + 3] as int)
            } by {
                if i >= p {
                    assert(i % 4 == i - p);
                }
            }
        }
        p = p + 4;
    }
}

/// Expand `count` decoded luma-alpha pairs into premultiplied RGBA: the
/// scaled luma three times, then the alpha.
pub fn expand_luma_alpha(bytes: &[u8], count: usize) -> (r: Vec<u8>)
    requires
        2 * count <= bytes@.len(),
        4 * count <= usize::MAX,
    ensures
        r@.len() == 4 * count,
        forall|i: int|
            0 <= i < 4 * count ==> #[trigger] r@[i] == if i % 4 == 3 {
                bytes@[2 * (i / 4) + 1] as int
            } else {
                premultiplied(bytes@[2 * (i / 4)] as int, bytes@[2 * (i / 4) + 1] as int)
            },
{
    let mut out: Vec<u8> = Vec::new();
    let mut j: usize = 0;
    while j < count
        invariant
            2 * count <= bytes@.len(),
            4 * count <= usize::MAX,
            j <= count,
            out@.len() == 4 * j,
            forall|i: int|
                0 <= i < out@.len() ==> #[trigger] out@[i] == if i % 4 == 3 {
                    bytes@[2 * (i / 4) + 1] as int
                } else {
                    premultiplied(bytes@[2 * (i / 4)] as int, bytes@[2 * (i / 4) + 1] as int)
                },
        decreases count - j,
    {
        let alpha = bytes[2 * j + 1];
        let luma = scale_by_alpha(bytes[2 * j], alpha);
        out.push(luma);
        out.push(luma);
        out.push(luma);
        out.push(alpha);
        proof {
            assert forall|i: int| 0 <= i < out@.len() implies #[trigger] out@[i] == if i % 4 == 3 {
                bytes@[2 * (i / 4) + 1] as int
            } else {
                premultiplied(bytes@[2 * (i / 4)] as int, bytes@[2 * (i / 4) + 1] as int)
            } by {
                if i >= 4 * j {
                    assert(i / 4 == j);
                    assert(i % 4 == i - 4 * j);
                }
            }
        }
        j = j + 1;
    }
    out
}

/// The pixels, width and height that `zune_png` decodes from `bytes` with
/// an alpha channel added and 16-bit samples cut to 8 bits, or none.
pub uninterp spec fn png_pixels(bytes: Seq<u8>) -> Option<(Seq<u8>, usize, usize)>;

/// Decode a PNG file with `zune_png::PngDecoder` (headers, dimensions,
/// output size, then `decode_into` a buffer of that size). The contract
/// only names the outcome: decoding is a function of the bytes; nothing is
/// stated of the pixels, of the buffer's size, or of which inputs the
/// decoder rejects.
#[verifier::external_body]
fn decode_png(bytes: &[u8]) -> (r: Option<(Vec<u8>, usize, usize)>)
    ensures
        match r {
            Some((v, w, h)) => png_pixels(bytes@) == Some((v@, w, h)),
            None => png_pixels(bytes@) is None,
        },
{
    let options = zune_core::options::DecoderOptions::default().png_set_add_alpha_channel(true).png_set_strip_to_8bit(true);
    let mut decoder = zune_png::PngDecoder::new_with_options(zune_core::bytestream::ZCursor::new(bytes), options);
    decoder.decode_headers().ok()?;
    let (width, height) = decoder.dimensions()?;
    let mut out = vec![0u8; decoder.output_buffer_size()?];
    decoder.decode_into(&mut out).ok()?;
    Some((out, width, height))
}


/// Whether a file starts like a PNG.
pub open spec fn looks_png(bytes: Seq<u8>) -> bool {
    bytes.len() >= 4 && bytes[0] == 0x89 && bytes[1] == 0x50 && bytes[2] == 0x4E && bytes[3] == 0x47
}

/// Whether a file starts like a JPEG.
pub open spec fn looks_jpeg(bytes: Seq<u8>) -> bool {
    bytes.len() >= 2 && bytes[0] == 0xFF && bytes[1] == 0xD8
}

/// RGBA bytes with the colours scaled by alpha.
pub open spec fn premultiplied_rgba(v: Seq<u8>) -> Seq<u8> {
    Seq::new(
        v.len(),
        |i: int|
            if i % 4 == 3 {
                v[i]
            } else {
                premultiplied(v[i] as int, v[i - i % 4 + 3] as int) as u8
            },
    )
}

/// The first `n` luma-alpha pairs as premultiplied RGBA.
pub open spec fn luma_alpha_expanded(v: Seq<u8>, n: int) -> Seq<u8> {
    Seq::new(
        (4 * n) as nat,
        |i: int|
            if i % 4 == 3 {
                v[2 * (i / 4) + 1]
            } else {
                premultiplied(v[2 * (i / 4)] as int, v[2 * (i / 4) + 1] as int) as u8
            },
    )
}

/// Decoded samples made ready for display: with four samples a pixel, the
/// colours scaled by alpha; with two (grey and alpha), grey spread over the
/// three colours and scaled by alpha; anything else, or an empty or
/// oversized image, gives nothing.
pub open spec fn ready_pixels(v: Seq<u8>, w: usize, h: usize) -> Option<(Seq<u8>, usize, usize)> {
    let n = w * h;
    if n == 0 || 4 * n > usize::MAX {
        None
    } else if (v.len() as int) / (n as int) == 4 {
        Some((premultiplied_rgba(v.take(4 * n)), w, h))
    } else if (v.len() as int) / (n as int) == 2 {
        Some((luma_alpha_expanded(v, n), w, h))
    } else {
        None
    }
}

/// The displayable pixels of a PNG cover file: decoded and made ready;
/// nothing when decoding fails.
pub open spec fn decoded_png(bytes: Seq<u8>) -> Option<(Seq<u8>, usize, usize)> {
    match png_pixels(bytes) {
        Some((v, w, h)) => ready_pixels(v, w, h),
        None => None,
    }
}

/// Make decoded samples ready for display (see `ready_pixels`).
pub fn ready(v: Vec<u8>, width: usize, height: usize) -> (r: Option<(Vec<u8>, usize, usize)>)
    ensures
        match r {
            Some((x, w, h)) => ready_pixels(v@, width, height) == Some((x@, w, h)),
            None => ready_pixels(v@, width, height) is None,
        },
{
    let mut out = v;
    let count = match width.checked_mul(height) {
        Some(c) => c,
        None => return None,
    };
    if count == 0 || count > usize::MAX / 4 {
        return None;
    }
    let channels = out.len() / count;
    if channels == 4 {
        proof {
            assert(4 * count <= out@.len()) by (nonlinear_arith)
                requires channels == (out@.len() as int) / (count as int), count > 0, channels == 4;
        }
        out.truncate(4 * count);
        let ghost taken = out@;
        premultiply_rgba(&mut out);
        proof {
            assert(out@ =~= premultiplied_rgba(taken));
        }
        Some((out, width, height))
    } else if channels == 2 {
        proof {
            assert(2 * count <= out@.len()) by (nonlinear_arith)
                requires channels == (out@.len() as int) / (count as int), count > 0, channels == 2;
        }
        let pixels = expand_luma_alpha(out.as_slice(), count);
        proof {
            assert(pixels@ =~= luma_alpha_expanded(out@, count as int));
        }
        Some((pixels, width, height))
    } else {
        None
    }
}

/// What decoding a cover file gives.
pub enum Cover {
    /// Premultiplied RGBA bytes, with the width and height.
    Pixels(Vec<u8>, usize, usize),
    /// A JPEG file. Its decoder may panic on malformed input, so decoding
    /// it is left to the caller, who can contain a panic; `ready` then
    /// makes the decoded samples displayable.
    Jpeg,
    /// Not a cover that can be shown.
    Unreadable,
}

/// Decode a cover file: a PNG into premultiplied RGBA bytes, with its
/// width and height; a JPEG is recognised and handed back; anything else
/// cannot be shown.
pub fn decode(bytes: &[u8]) -> (r: Cover)
    ensures
        looks_png(bytes@) ==> match decoded_png(bytes@) {
            Some((v, w, h)) => r matches Cover::Pixels(x, rw, rh) && x@ == v && rw == w && rh == h,
            None => r is Unreadable,
        },
        !looks_png(bytes@) && looks_jpeg(bytes@) ==> r is Jpeg,
        !looks_png(bytes@) && !looks_jpeg(bytes@) ==> r is Unreadable,
{
    let n = bytes.len();
    if n >= 4 && bytes[0] == 0x89 && bytes[1] == 0x50 && bytes[2] == 0x4E && bytes[3] == 0x47 {
        match decode_png(bytes) {
            Some((v, width, height)) => match ready(v, width, height) {
                Some((x, w, h)) => Cover::Pixels(x, w, h),
                None => Cover::Unreadable,
            },
            None => Cover::Unreadable,
        }
    } else if n >= 2 && bytes[0] == 0xFF && bytes[1] == 0xD8 {
        Cover::Jpeg
    } else {
        Cover::Unreadable
    }
}

} // verus!
