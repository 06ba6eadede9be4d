//! Conversion of straight RGBA pixels into premultiplied BGRA bytes.
use vstd::arithmetic::div_mod::lemma_fundamental_div_mod;
use vstd::arithmetic::div_mod::lemma_fundamental_div_mod_converse;
use vstd::prelude::*;

verus! {

/// Opacity is a fixed-point fraction: `OPACITY_ONE` stands for fully opaque,
/// zero for fully transparent.
pub const OPACITY_ONE: u32 = 10000;

/// `n / d` rounded to the nearest integer, halves rounded up.
pub open spec fn round_div(n: int, d: int) -> int {
    (2 * n + d) / (2 * d)
}

/// New alpha: `round(a * o)`, with `o = opacity / OPACITY_ONE`.
pub open spec fn premul_alpha(a: int, opacity: int) -> int {
    round_div(a * opacity, OPACITY_ONE as int)
}

/// New colour channel: `round(c * a * o / 255)`.
pub open spec fn premul_channel(c: int, a: int, opacity: int) -> int {
    round_div(c * a * opacity, 255 * OPACITY_ONE as int)
}

/// The output pixel for input `(r, g, b, a)`, in the byte order (b, g, r, a).
pub open spec fn premul_pixel(px: (u8, u8, u8, u8), opacity: int) -> (u8, u8, u8, u8) {
    let (r, g, b, a) = px;
    (
        premul_channel(b as int, a as int, opacity) as u8,
        premul_channel(g as int, a as int, opacity) as u8,
        premul_channel(r as int, a as int, opacity) as u8,
        premul_alpha(a as int, opacity) as u8,
    )
}

/// The four bytes of pixel `i` in a packed 4-bytes-per-pixel sequence.
pub open spec fn pixel_of(s: Seq<u8>, i: int) -> (u8, u8, u8, u8) {
    (s[4 * i], s[4 * i + 1], s[4 * i + 2], s[4 * i + 3])
}

/// `s` is the premultiplied form of the whole pixels of `src`.
pub open spec fn is_premultiplied(s: Seq<u8>, src: Seq<u8>, opacity: int) -> bool {
    &&& s.len() == 4 * (src.len() / 4)
    &&& forall|i: int|
        0 <= i < src.len() / 4 ==> #[trigger] pixel_of(s, i) == premul_pixel(
            pixel_of(src, i),
            opacity,
        )
}

proof fn lemma_round_div_bounded(n: int, d: int, m: int)
    requires
        d > 0,
        m >= 0,
        0 <= n <= m * d,
    ensures
        0 <= round_div(n, d) <= m,
{
    lemma_fundamental_div_mod(2 * n + d, 2 * d);
    let q = (2 * n + d) / (2 * d);
    let r = (2 * n + d) % (2 * d);
    assert(0 <= q <= m) by (nonlinear_arith)
        requires
            2 * n + d == 2 * d * q + r,
            0 <= r < 2 * d,
            d > 0,
            0 <= n <= m * d,
    ;
}

proof fn lemma_round_div_exact(c: int, d: int)
    requires
        d > 0,
        c >= 0,
    ensures
        round_div(c * d, d) == c,
{
    assert(2 * (c * d) + d == c * (2 * d) + d) by (nonlinear_arith);
    lemma_fundamental_div_mod_converse(2 * (c * d) + d, 2 * d, c, d);
}

proof fn lemma_premul_bounded(c: int, a: int, opacity: int)
    requires
        0 <= c <= 255,
        0 <= a <= 255,
        0 <= opacity <= OPACITY_ONE,
    ensures
        0 <= premul_channel(c, a, opacity) <= 255,
        0 <= premul_alpha(a, opacity) <= 255,
{
    assert(0 <= c * a * opacity <= 255 * (255 * OPACITY_ONE as int)) by (nonlinear_arith)
        requires
            0 <= c <= 255,
            0 <= a <= 255,
            0 <= opacity <= OPACITY_ONE,
    ;
    lemma_round_div_bounded(c * a * opacity, 255 * OPACITY_ONE as int, 255);
    assert(0 <= a * opacity <= 255 * OPACITY_ONE) by (nonlinear_arith)
        requires
            0 <= a <= 255,
            0 <= opacity <= OPACITY_ONE,
    ;
    lemma_round_div_bounded(a * opacity, OPACITY_ONE as int, 255);
}

/// Rounded `n / d` for values that fit the arithmetic below.
fn round_div_exec(n: u64, d: u64) -> (r: u64)
    requires
        d > 0,
        n <= 1_000_000_000_000,
        d <= 1_000_000_000,
    ensures
        r == round_div(n as int, d as int),
{
    (2 * n + d) / (2 * d)
}

/// Premultiplies one pixel `(r, g, b, a)` by its alpha and the opacity, and
/// returns it in the byte order (b, g, r, a).
pub fn premultiply_pixel(px: (u8, u8, u8, u8), opacity: u32) -> (r: (u8, u8, u8, u8))
    requires
        opacity <= OPACITY_ONE,
    ensures
        r == premul_pixel(px, opacity as int),
{
    let (r, g, b, a) = px;
    proof {
        lemma_premul_bounded(r as int, a as int, opacity as int);
        lemma_premul_bounded(g as int, a as int, opacity as int);
        lemma_premul_bounded(b as int, a as int, opacity as int);
    }
    let o = opacity as u64;
    let a64 = a as u64;
    assert(a64 * o <= 255 * 10000) by (nonlinear_arith)
        requires
            a64 <= 255,
            o <= 10000,
    ;
    let ao = a64 * o;
    let d: u64 = 255 * (OPACITY_ONE as u64);
    assert((r as u64) * ao <= 255 * (255 * 10000)) by (nonlinear_arith)
        requires
            r <= 255,
            ao <= 255 * 10000,
    ;
    assert((g as u64) * ao <= 255 * (255 * 10000)) by (nonlinear_arith)
        requires
            g <= 255,
            ao <= 255 * 10000,
    ;
    assert((b as u64) * ao <= 255 * (255 * 10000)) by (nonlinear_arith)
        requires
            b <= 255,
            ao <= 255 * 10000,
    ;
    proof {
        assert((r as int) * (a as int) * (opacity as int) == (r as int) * (ao as int))
            by (nonlinear_arith)
            requires
                ao == a * opacity,
        ;
        assert((g as int) * (a as int) * (opacity as int) == (g as int) * (ao as int))
            by (nonlinear_arith)
            requires
                ao == a * opacity,
        ;
        assert((b as int) * (a as int) * (opacity as int) == (b as int) * (ao as int))
            by (nonlinear_arith)
            requires
                ao == a * opacity,
        ;
    }
    let nr = round_div_exec((r as u64) * ao, d);
    let ng = round_div_exec((g as u64) * ao, d);
    let nb = round_div_exec((b as u64) * ao, d);
    let na = round_div_exec(ao, OPACITY_ONE as u64);
    (nb as u8, ng as u8, nr as u8, na as u8)
}

/// Converts a packed RGBA buffer (4 bytes per pixel) into premultiplied BGRA
/// bytes with the given opacity. Trailing bytes that do not make a whole
/// pixel are dropped.
pub fn process_buffer(buffer: &Vec<u8>, opacity: u32) -> (data: Vec<u8>)
    requires
        opacity <= OPACITY_ONE,
    ensures
        is_premultiplied(data@, buffer@, opacity as int),
{
    let len: usize = buffer.len();
    let n: usize = len / 4;
    let mut data: Vec<u8> = Vec::with_capacity(4 * n);
    let mut i: usize = 0;
    while i < n
        invariant
            len == buffer@.len(),
            n == buffer@.len() / 4,
            i <= n,
            opacity <= OPACITY_ONE,
            data@.len() == 4 * i,
            forall|j: int|
                0 <= j < i ==> #[trigger] pixel_of(data@, j) == premul_pixel(
                    pixel_of(buffer@, j),
                    opacity as int,
                ),
        decreases n - i,
    {
        proof {
            lemma_fundamental_div_mod(buffer@.len() as int, 4);
            assert(4 * i + 3 < buffer@.len());
        }
        let px = (buffer[4 * i], buffer[4 * i + 1], buffer[4 * i + 2], buffer[4 * i + 3]);
        let (nb, ng, nr, na) = premultiply_pixel(px, opacity);
        let ghost before = data@;
        data.push(nb);
        data.push(ng);
        data.push(nr);
        data.push(na);
        assert forall|j: int| 0 <= j <= i implies #[trigger] pixel_of(data@, j) == premul_pixel(
            pixel_of(buffer@, j),
            opacity as int,
        ) by {
            if j < i {
                assert(pixel_of(data@, j) == pixel_of(before, j));
            }
        }
        i = i + 1;
    }
    data
}

/// At full opacity an opaque pixel keeps its colour: only the byte order
/// changes.
pub proof fn lemma_opaque_pixel_unchanged(r: u8, g: u8, b: u8)
    ensures
        premul_pixel((r, g, b, 255), OPACITY_ONE as int) == (b, g, r, 255u8),
{
    let d = 255 * OPACITY_ONE as int;
    assert((r as int) * 255 * (OPACITY_ONE as int) == (r as int) * d) by (nonlinear_arith)
        requires
            d == 255 * OPACITY_ONE as int,
    ;
    assert((g as int) * 255 * (OPACITY_ONE as int) == (g as int) * d) by (nonlinear_arith)
        requires
            d == 255 * OPACITY_ONE as int,
    ;
    assert((b as int) * 255 * (OPACITY_ONE as int) == (b as int) * d) by (nonlinear_arith)
        requires
            d == 255 * OPACITY_ONE as int,
    ;
    lemma_round_div_exact(r as int, d);
    lemma_round_div_exact(g as int, d);
    lemma_round_div_exact(b as int, d);
    lemma_round_div_exact(255, OPACITY_ONE as int);
}

/// At zero opacity every pixel becomes transparent black, whatever its colour.
pub proof fn lemma_zero_opacity_transparent(px: (u8, u8, u8, u8))
    ensures
        premul_pixel(px, 0) == (0u8, 0u8, 0u8, 0u8),
{
    let (r, g, b, a) = px;
    assert((r as int) * (a as int) * 0 == 0 * (255 * OPACITY_ONE as int));
    assert((g as int) * (a as int) * 0 == 0 * (255 * OPACITY_ONE as int));
    assert((b as int) * (a as int) * 0 == 0 * (255 * OPACITY_ONE as int));
    assert((a as int) * 0 == 0 * (OPACITY_ONE as int));
    lemma_round_div_exact(0, 255 * OPACITY_ONE as int);
    lemma_round_div_exact(0, OPACITY_ONE as int);
}

} // verus!
