//! Colours with four 8-bit channels (red, green, blue, alpha), their mean and
//! their distance.

use vstd::prelude::*;

verus! {

/// The sum of channel `c` over all of `colors`.
pub open spec fn channel_sum(colors: Seq<[u8; 4]>, c: int) -> int
    decreases colors.len(),
{
    if colors.len() == 0 {
        0
    } else {
        channel_sum(colors.drop_last(), c) + colors.last()[c]
    }
}

/// The mean of channel `c` over all of `colors`, rounded towards zero; zero
/// where there is no colour at all.
pub open spec fn channel_mean(colors: Seq<[u8; 4]>, c: int) -> int {
    if colors.len() == 0 {
        0
    } else {
        channel_sum(colors, c) / (colors.len() as int)
    }
}

/// The channels of the blend of `colors`: each one the mean of that channel.
pub open spec fn blend_of(colors: Seq<[u8; 4]>) -> Seq<u8> {
    seq![
        channel_mean(colors, 0) as u8,
        channel_mean(colors, 1) as u8,
        channel_mean(colors, 2) as u8,
        channel_mean(colors, 3) as u8,
    ]
}

/// The squared distance of two colours over red, green and blue. Alpha does
/// not count.
pub open spec fn diff_of(u: Seq<u8>, v: Seq<u8>) -> int {
    (u[0] - v[0]) * (u[0] - v[0]) + (u[1] - v[1]) * (u[1] - v[1]) + (u[2] - v[2]) * (u[2]
        - v[2])
}

fn channel_square(x: u8, y: u8) -> (r: i32)
    ensures
        r == (x - y) * (x - y),
        0 <= r <= 65025,
{
    let d: i32 = x as i32 - y as i32;
    assert(0 <= d * d <= 65025) by (nonlinear_arith)
        requires
            -255 <= d <= 255,
    ;
    d * d
}

/// The squared distance of `a` and `b` over red, green and blue.
pub fn diff(a: [u8; 4], b: [u8; 4]) -> (d: i32)
    ensures
        d == diff_of(a@, b@),
        0 <= d <= 195075,
        a == b ==> d == 0,
{
    channel_square(a[0], b[0]) + channel_square(a[1], b[1]) + channel_square(a[2], b[2])
}

/// The mean of `colors`, channel by channel, each mean rounded towards zero.
/// With no colour given the result is transparent black.
pub fn blend(pixels: &[[u8; 4]]) -> (out: [u8; 4])
    ensures
        out@ == blend_of(pixels@),
{
    let n: usize = pixels.len();
    if n == 0 {
        let zero: [u8; 4] = [0, 0, 0, 0];
        assert(zero@ =~= blend_of(pixels@));
        return zero;
    }
    let mut r: u128 = 0;
    let mut g: u128 = 0;
    let mut b: u128 = 0;
    let mut a: u128 = 0;
    let mut i: usize = 0;
    while i < n
        invariant
            n == pixels@.len(),
            i <= n,
            r == channel_sum(pixels@.take(i as int), 0),
            g == channel_sum(pixels@.take(i as int), 1),
            b == channel_sum(pixels@.take(i as int), 2),
            a == channel_sum(pixels@.take(i as int), 3),
            r <= 255 * i,
            g <= 255 * i,
            b <= 255 * i,
            a <= 255 * i,
        decreases n - i,
    {
        let p: [u8; 4] = pixels[i];
        proof {
            let next = pixels@.take(i + 1);
            assert(next.drop_last() =~= pixels@.take(i as int));
            assert(next.last() == p);
        }
        r = r + p[0] as u128;
        g = g + p[1] as u128;
        b = b + p[2] as u128;
        a = a + p[3] as u128;
        i = i + 1;
    }
    assert(pixels@.take(n as int) =~= pixels@);
    let k: u128 = n as u128;
    let out: [u8; 4] = [mean(r, k), mean(g, k), mean(b, k), mean(a, k)];
    assert(out@ =~= blend_of(pixels@));
    out
}

fn mean(sum: u128, n: u128) -> (m: u8)
    requires
        n > 0,
        sum <= 255 * n,
    ensures
        m == sum / n,
{
    let q: u128 = sum / n;
    assert(q <= 255) by (nonlinear_arith)
        requires
            n > 0,
            sum <= 255 * n,
            q == sum / n,
    ;
    q as u8
}

/// Over colours that all equal `c`, a channel sum is that channel of `c` times
/// their number.
pub proof fn lemma_channel_sum_uniform(colors: Seq<[u8; 4]>, c: [u8; 4], k: int)
    requires
        forall|i: int| 0 <= i < colors.len() ==> colors[i] == c,
    ensures
        channel_sum(colors, k) == colors.len() * c[k],
    decreases colors.len(),
{
    if colors.len() > 0 {
        lemma_channel_sum_uniform(colors.drop_last(), c, k);
        assert(colors.last() == c);
        assert(channel_sum(colors, k) == (colors.len() - 1) * c[k] + c[k]);
        assert((colors.len() - 1) * c[k] + c[k] == colors.len() * c[k]) by (nonlinear_arith);
    }
}

/// Blending one or more copies of a colour gives that colour back unchanged.
pub proof fn lemma_blend_uniform(colors: Seq<[u8; 4]>, c: [u8; 4])
    requires
        colors.len() > 0,
        forall|i: int| 0 <= i < colors.len() ==> colors[i] == c,
    ensures
        blend_of(colors) == c@,
{
    let n = colors.len() as int;
    assert forall|k: int| 0 <= k < 4 implies channel_mean(colors, k) == c[k] by {
        lemma_channel_sum_uniform(colors, c, k);
        let v = c[k] as int;
        assert((n * v) / n == v) by (nonlinear_arith)
            requires
                n > 0,
        ;
    }
    assert(blend_of(colors) =~= c@);
}

/// A colour is at distance zero from itself.
pub proof fn lemma_diff_self(x: Seq<u8>)
    ensures
        diff_of(x, x) == 0,
{
}

} // verus!
