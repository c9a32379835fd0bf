//! The accent colour sampled from the desktop wallpaper: the wallpaper is
//! shrunk to 16×16 pixels and its colour channels are averaged.

use vstd::prelude::*;

verus! {

/// An RGB colour.
#[derive(Debug, Clone, Copy, PartialEq, Eq)]
pub struct AccentColor {
    pub r: u8,
    pub g: u8,
    pub b: u8,
}

/// The interleaved RGB bytes that `image::imageops::resize` with
/// `FilterType::Nearest` produces when it scales the `width`×`height` 8-bit
/// RGB image `pixels` to `new_width`×`new_height`.
pub uninterp spec fn nearest_resized(
    width: u32,
    height: u32,
    pixels: Seq<u8>,
    new_width: u32,
    new_height: u32,
) -> Seq<u8>;

/// `image::imageops::resize(.., FilterType::Nearest)` on an 8-bit RGB image
/// given by its raw interleaved bytes. The contract claims that the result is
/// a function of the arguments (named by [`nearest_resized`]) and that it holds
/// exactly `new_width`×`new_height` pixels; what the pixels are is not stated.
#[verifier::external_body]
fn resize_nearest_rgb8(
    width: u32,
    height: u32,
    pixels: &[u8],
    new_width: u32,
    new_height: u32,
) -> (out: Vec<u8>)
    requires
        pixels@.len() == 3 * width * height,
        3 * new_width * new_height <= usize::MAX,
    ensures
        out@ == nearest_resized(width, height, pixels@, new_width, new_height),
        out@.len() == 3 * new_width * new_height,
{
    let img = image::RgbImage::from_raw(width, height, pixels.to_vec()).unwrap();
    image::imageops::resize(&img, new_width, new_height, image::imageops::FilterType::Nearest).into_raw()
}

/// The sum of channel `ch` (0 red, 1 green, 2 blue) over the first `n` pixels.
pub open spec fn channel_sum(px: Seq<u8>, ch: int, n: int) -> int
    decreases n,
{
    if n <= 0 {
        0
    } else {
        channel_sum(px, ch, n - 1) + px[3 * (n - 1) + ch]
    }
}

/// The average colour of interleaved RGB pixels, each channel rounded down;
/// `None` when there is no pixel.
pub open spec fn average_color(px: Seq<u8>) -> Option<AccentColor> {
    let n: int = px.len() as int / 3;
    if n == 0 {
        None
    } else {
        Some(
            AccentColor {
                r: (channel_sum(px, 0, n) / n) as u8,
                g: (channel_sum(px, 1, n) / n) as u8,
                b: (channel_sum(px, 2, n) / n) as u8,
            },
        )
    }
}

proof fn lemma_channel_sum_bound(px: Seq<u8>, ch: int, n: int)
    requires
        0 <= ch < 3,
        0 <= n,
        3 * n <= px.len(),
    ensures
        0 <= channel_sum(px, ch, n) <= 255 * n,
    decreases n,
{
    if n > 0 {
        lemma_channel_sum_bound(px, ch, n - 1);
    }
}

proof fn lemma_average_fits(sum: int, n: int)
    requires
        0 < n,
        0 <= sum <= 255 * n,
    ensures
        0 <= sum / n <= 255,
{
    assert(sum / n <= 255) by (nonlinear_arith)
        requires
            0 < n,
            0 <= sum <= 255 * n,
    ;
    assert(0 <= sum / n) by (nonlinear_arith)
        requires
            0 < n,
            0 <= sum,
    ;
}

/// The average colour of interleaved RGB pixels (`None` without pixels).
pub fn average_rgb(px: &[u8]) -> (c: Option<AccentColor>)
    requires
        px@.len() <= 0x1_0000_0000_0000,
    ensures
        c == average_color(px@),
{
    let n = px.len() / 3;
    let mut r: u64 = 0;
    let mut g: u64 = 0;
    let mut b: u64 = 0;
    let mut i: usize = 0;
    while i < n
        invariant
            n == px@.len() / 3,
            px@.len() <= 0x1_0000_0000_0000,
            0 <= i <= n,
            r == channel_sum(px@, 0, i as int),
            g == channel_sum(px@, 1, i as int),
            b == channel_sum(px@, 2, i as int),
        decreases n - i,
    {
        proof {
            assert(3 * i + 3 <= px@.len()) by (nonlinear_arith)
                requires
                    i < n,
                    n == px@.len() / 3,
            ;
            lemma_channel_sum_bound(px@, 0, i + 1);
            lemma_channel_sum_bound(px@, 1, i + 1);
            lemma_channel_sum_bound(px@, 2, i + 1);
        }
        assert(px@.len() == px.len());
        let k: usize = 3 * i;
        r = r + px[k] as u64;
        g = g + px[k + 1] as u64;
        b = b + px[k + 2] as u64;
        i = i + 1;
    }
    if n == 0 {
        return None;
    }
    proof {
        lemma_channel_sum_bound(px@, 0, n as int);
        lemma_channel_sum_bound(px@, 1, n as int);
        lemma_channel_sum_bound(px@, 2, n as int);
        lemma_average_fits(r as int, n as int);
        lemma_average_fits(g as int, n as int);
        lemma_average_fits(b as int, n as int);
    }
    Some(
        AccentColor {
            r: (r / n as u64) as u8,
            g: (g / n as u64) as u8,
            b: (b / n as u64) as u8,
        },
    )
}

proof fn lemma_uniform_sum(px: Seq<u8>, ch: int, v: u8, n: int)
    requires
        0 <= ch < 3,
        0 <= n,
        3 * n <= px.len(),
        forall|k: int| 0 <= k < n ==> #[trigger] px[3 * k + ch] == v,
    ensures
        channel_sum(px, ch, n) == n * v,
    decreases n,
{
    if n > 0 {
        lemma_uniform_sum(px, ch, v, n - 1);
        assert(px[3 * (n - 1) + ch] == v);
        assert(n * v == (n - 1) * v + v) by (nonlinear_arith);
    } else {
        assert(n * v == 0) by (nonlinear_arith)
            requires
                n == 0,
        ;
    }
}

/// A picture of one colour has that colour as its average.
pub proof fn law_uniform_average(px: Seq<u8>, c: AccentColor)
    requires
        px.len() >= 3,
        forall|k: int|
            0 <= k < px.len() / 3 ==> #[trigger] px[3 * k] == c.r && px[3 * k + 1] == c.g && px[3 * k + 2]
                == c.b,
    ensures
        average_color(px) == Some(c),
{
    let n: int = px.len() as int / 3;
    assert(n >= 1);
    assert forall|k: int| 0 <= k < n implies #[trigger] px[3 * k + 0] == c.r by {
        assert(px[3 * k] == c.r);
    }
    assert forall|k: int| 0 <= k < n implies #[trigger] px[3 * k + 1] == c.g by {
        assert(px[3 * k] == c.r);
    }
    assert forall|k: int| 0 <= k < n implies #[trigger] px[3 * k + 2] == c.b by {
        assert(px[3 * k] == c.r);
    }
    lemma_uniform_sum(px, 0, c.r, n);
    lemma_uniform_sum(px, 1, c.g, n);
    lemma_uniform_sum(px, 2, c.b, n);
    assert((n * c.r) / n == c.r as int) by (nonlinear_arith)
        requires
            n >= 1,
    ;
    assert((n * c.g) / n == c.g as int) by (nonlinear_arith)
        requires
            n >= 1,
    ;
    assert((n * c.b) / n == c.b as int) by (nonlinear_arith)
        requires
            n >= 1,
    ;
}

/// A channel sum over the pixels of `a` followed by those of `b` is the sum
/// over `a` plus the sum over `b`.
pub proof fn law_channel_sum_splits(a: Seq<u8>, b: Seq<u8>, ch: int, na: int, nb: int)
    requires
        0 <= ch < 3,
        0 <= na,
        0 <= nb,
        a.len() == 3 * na,
        b.len() == 3 * nb,
    ensures
        channel_sum(a + b, ch, na + nb) == channel_sum(a, ch, na) + channel_sum(b, ch, nb),
    decreases nb,
{
    if nb == 0 {
        lemma_channel_sum_prefix(a + b, a, ch, na);
    } else {
        let b2 = b.subrange(0, 3 * (nb - 1));
        law_channel_sum_splits(a, b2, ch, na, nb - 1);
        lemma_channel_sum_prefix(a + b, a + b2, ch, na + nb - 1);
        lemma_channel_sum_prefix(b, b2, ch, nb - 1);
        assert((a + b)[3 * (na + nb - 1) + ch] == b[3 * (nb - 1) + ch]);
    }
}

/// The channel sum of one pixel is that pixel's channel.
pub proof fn law_channel_sum_of_one_pixel(r: u8, g: u8, b: u8)
    ensures
        channel_sum(seq![r, g, b], 0, 1) == r,
        channel_sum(seq![r, g, b], 1, 1) == g,
        channel_sum(seq![r, g, b], 2, 1) == b,
{
    reveal_with_fuel(channel_sum, 2);
}

proof fn lemma_channel_sum_prefix(s: Seq<u8>, t: Seq<u8>, ch: int, n: int)
    requires
        0 <= ch < 3,
        0 <= n,
        3 * n <= t.len(),
        t.len() <= s.len(),
        forall|k: int| 0 <= k < t.len() ==> #[trigger] t[k] == s[k],
    ensures
        channel_sum(s, ch, n) == channel_sum(t, ch, n),
    decreases n,
{
    if n > 0 {
        lemma_channel_sum_prefix(s, t, ch, n - 1);
        assert(t[3 * (n - 1) + ch] == s[3 * (n - 1) + ch]);
    }
}

/// Each channel of the average colour is the floor of the channel's sum over
/// all pixels divided by their number: `c * n <= sum < (c + 1) * n`.
pub proof fn law_average_is_floor_mean(px: Seq<u8>)
    requires
        px.len() >= 3,
    ensures
        ({
            let n = px.len() as int / 3;
            average_color(px) matches Some(c) && {
                &&& c.r * n <= channel_sum(px, 0, n) < (c.r + 1) * n
                &&& c.g * n <= channel_sum(px, 1, n) < (c.g + 1) * n
                &&& c.b * n <= channel_sum(px, 2, n) < (c.b + 1) * n
            }
        }),
{
    let n = px.len() as int / 3;
    assert(3 * n <= px.len()) by (nonlinear_arith)
        requires
            n == px.len() as int / 3,
    ;
    lemma_channel_sum_bound(px, 0, n);
    lemma_channel_sum_bound(px, 1, n);
    lemma_channel_sum_bound(px, 2, n);
    lemma_average_fits(channel_sum(px, 0, n), n);
    lemma_average_fits(channel_sum(px, 1, n), n);
    lemma_average_fits(channel_sum(px, 2, n), n);
    lemma_floor_bounds(channel_sum(px, 0, n), n);
    lemma_floor_bounds(channel_sum(px, 1, n), n);
    lemma_floor_bounds(channel_sum(px, 2, n), n);
}

proof fn lemma_floor_bounds(sum: int, n: int)
    requires
        0 < n,
        0 <= sum,
    ensures
        (sum / n) * n <= sum < (sum / n + 1) * n,
{
    assert((sum / n) * n <= sum < (sum / n + 1) * n) by (nonlinear_arith)
        requires
            0 < n,
            0 <= sum,
    ;
}

/// The accent colour of a `width`×`height` RGB wallpaper: the average colour
/// of the wallpaper scaled to 16×16 with nearest-neighbour sampling.
pub fn wallpaper_accent(width: u32, height: u32, rgb: &[u8]) -> (c: Option<AccentColor>)
    requires
        rgb@.len() == 3 * width * height,
    ensures
        c == average_color(nearest_resized(width, height, rgb@, 16, 16)),
{
    let small = resize_nearest_rgb8(width, height, rgb, 16, 16);
    average_rgb(small.as_slice())
}

} // verus!
