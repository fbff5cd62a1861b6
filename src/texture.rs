//! Texture classification: the texture-mapping plane, per-texture colour
//! statistics, and the nearest-texture choice for a sampled pixel.
use vstd::prelude::*;
use crate::arith::{lemma_mul_abs_le, Ratio};
use crate::plane::Weights;
use crate::vec2::Vec2;
use crate::{Block, COORD_LIMIT, FIXED_ONE};

verus! {

/// Block id of a voxel whose material could not be determined.
pub const DEFAULT_TEXTURE_ID: Block = -1;

/// Largest pixel count of an available texture whose statistics are taken;
/// it keeps the cross-multiplied comparison of mean brightnesses within `u128`.
pub const PIXEL_LIMIT: u64 = 0x1_0000_0000_0000;

/// One pixel: red, green and blue channels.
#[derive(Clone, Copy, Debug, PartialEq, Eq, Structural)]
pub struct Rgb {
    pub r: u8,
    pub g: u8,
    pub b: u8,
}

/// A decoded image: `width * height` pixels, row by row.
#[derive(Clone, Debug)]
pub struct TextureImage {
    pub width: u32,
    pub height: u32,
    pub pixels: Vec<Rgb>,
}

impl TextureImage {
    pub open spec fn wf(self) -> bool {
        self.pixels@.len() == self.width as int * self.height as int
    }

    /// The image, or `None` where the pixel count does not match the size.
    pub fn new(width: u32, height: u32, pixels: Vec<Rgb>) -> (r: Option<TextureImage>)
        ensures
            r is Some <==> pixels@.len() == width as int * height as int,
            r matches Some(img) ==> img.wf() && img.width == width && img.height == height
                && img.pixels@ == pixels@,
    {
        let w = width as u64;
        let h = height as u64;
        proof {
            lemma_mul_abs_le(w as int, h as int, 0xffff_ffff, 0xffff_ffff, 0xffff_fffe_0000_0001);
        }
        if pixels.len() as u64 == w * h {
            Some(TextureImage { width, height, pixels })
        } else {
            None
        }
    }
}

/// The brightness `R + G + B` of a pixel.
pub open spec fn brightness(p: Rgb) -> int {
    p.r + p.g + p.b
}

/// Sum of one channel (`0` red, `1` green, `2` blue) over the pixels.
pub open spec fn channel_sum(px: Seq<Rgb>, ch: int) -> int
    decreases px.len(),
{
    if px.len() == 0 {
        0
    } else {
        channel_sum(px.drop_last(), ch) + channel(px.last(), ch)
    }
}

/// Sum of the squares of one channel over the pixels.
pub open spec fn channel_sum_sq(px: Seq<Rgb>, ch: int) -> int
    decreases px.len(),
{
    if px.len() == 0 {
        0
    } else {
        channel_sum_sq(px.drop_last(), ch) + channel(px.last(), ch) * channel(px.last(), ch)
    }
}

pub open spec fn channel(p: Rgb, ch: int) -> int {
    if ch == 0 {
        p.r as int
    } else if ch == 1 {
        p.g as int
    } else {
        p.b as int
    }
}

/// Colour statistics of one available texture.
#[derive(Clone, Copy, Debug, PartialEq, Eq, Structural)]
pub struct TextureStat {
    pub block: Block,
    pub r_sum: u128,
    pub r_sum_sq: u128,
    pub g_sum: u128,
    pub g_sum_sq: u128,
    pub b_sum: u128,
    pub b_sum_sq: u128,
    pub count: u128,
}

impl TextureStat {
    /// The statistics of the pixels `px` under the id `block`.
    pub open spec fn describes(self, block: Block, px: Seq<Rgb>) -> bool {
        &&& self.block == block
        &&& self.r_sum == channel_sum(px, 0)
        &&& self.r_sum_sq == channel_sum_sq(px, 0)
        &&& self.g_sum == channel_sum(px, 1)
        &&& self.g_sum_sq == channel_sum_sq(px, 1)
        &&& self.b_sum == channel_sum(px, 2)
        &&& self.b_sum_sq == channel_sum_sq(px, 2)
        &&& self.count == px.len()
    }

    /// Sum of the three channel sums.
    pub open spec fn total(self) -> int {
        self.r_sum + self.g_sum + self.b_sum
    }

    /// Sum of the three channel sums of squares.
    pub open spec fn total_sq(self) -> int {
        self.r_sum_sq + self.g_sum_sq + self.b_sum_sq
    }

    /// The statistics that any pixel sequence can give.
    pub open spec fn bounded(self) -> bool {
        &&& self.r_sum + self.g_sum + self.b_sum <= 765 * self.count
        &&& self.r_sum_sq + self.g_sum_sq + self.b_sum_sq <= 195075 * self.count
        &&& self.count <= PIXEL_LIMIT
    }
}

/// How far the mean brightness `total / count` of `t` lies from `p`, times
/// the pixel count: `|total - p * count|`.
pub open spec fn deviation(t: TextureStat, p: int) -> int {
    let e = t.total() - p * t.count;
    if e < 0 {
        -e
    } else {
        e
    }
}

/// The mean brightness of `t` is strictly closer to `p` than that of `u`:
/// `deviation(t) / t.count < deviation(u) / u.count`, cross-multiplied.
pub open spec fn closer(t: TextureStat, u: TextureStat, p: int) -> bool {
    deviation(t, p) * u.count < deviation(u, p) * t.count
}

/// Index of the texture, among the first `n`, whose mean brightness is
/// closest to `p`, or `-1` if none has pixels; the first of equals is kept.
pub open spec fn scan(stats: Seq<TextureStat>, p: int, n: int) -> int
    decreases n,
{
    if n <= 0 {
        -1
    } else {
        let b = scan(stats, p, n - 1);
        let t = stats[n - 1];
        if t.count == 0 {
            b
        } else if b < 0 || closer(t, stats[b], p) {
            n - 1
        } else {
            b
        }
    }
}

/// The block of the texture whose mean brightness is closest to a pixel of
/// brightness `p`, or the default id where no texture has pixels.
pub open spec fn nearest_block(stats: Seq<TextureStat>, p: int) -> Block {
    let b = scan(stats, p, stats.len() as int);
    if b < 0 {
        DEFAULT_TEXTURE_ID
    } else {
        stats[b].block
    }
}

/// The scan picks an index it has seen, of a texture with pixels.
pub proof fn lemma_scan_range(stats: Seq<TextureStat>, p: int, n: int)
    requires
        0 <= n <= stats.len(),
    ensures
        -1 <= scan(stats, p, n) < n,
        scan(stats, p, n) >= 0 ==> stats[scan(stats, p, n)].count > 0,
    decreases n,
{
    if n > 0 {
        lemma_scan_range(stats, p, n - 1);
    }
}

/// The texture chosen is at least as close in mean brightness as every
/// texture with pixels, and some texture is chosen wherever one has pixels.
pub proof fn lemma_nearest_is_closest(stats: Seq<TextureStat>, p: int, n: int, k: int)
    requires
        n <= stats.len(),
        0 <= k < n,
        stats[k].count > 0,
    ensures
        scan(stats, p, n) >= 0,
        !closer(stats[k], stats[scan(stats, p, n)], p),
    decreases n,
{
    lemma_scan_range(stats, p, n);
    let b = scan(stats, p, n - 1);
    lemma_scan_range(stats, p, n - 1);
    let t = stats[n - 1];
    if k == n - 1 {
        if t.count != 0 && b >= 0 && !closer(t, stats[b], p) {
            // b stays; t is not closer than b
        } else {
            assert(deviation(t, p) * t.count == deviation(t, p) * t.count);
        }
    } else {
        lemma_nearest_is_closest(stats, p, n - 1, k);
        if t.count != 0 && closer(t, stats[b], p) {
            let u = stats[b];
            let v = stats[k];
            let (dt, dv, du) = (deviation(t, p), deviation(v, p), deviation(u, p));
            let (nt, nv, nu) = (t.count as int, v.count as int, u.count as int);
            assert(!(dv * nt < dt * nv)) by (nonlinear_arith)
                requires
                    dt * nu < du * nt,
                    !(dv * nu < du * nv),
                    nt > 0,
                    nv > 0,
                    nu > 0,
                    dt >= 0,
                    dv >= 0,
                    du >= 0,
            ;
        }
    }
}

/// Of two textures, a pixel whose brightness equals the per-pixel mean
/// brightness of one of them selects that one, wherever the other's mean
/// differs (as it does when their brightness ranges are disjoint).
pub proof fn lemma_matching_texture_selected(stats: Seq<TextureStat>, p: int, i: int)
    requires
        stats.len() == 2,
        0 <= i < 2,
        stats[i].count > 0,
        p * stats[i].count == stats[i].total(),
        stats[1 - i].count > 0,
        p * stats[1 - i].count != stats[1 - i].total(),
    ensures
        nearest_block(stats, p) == stats[i].block,
{
    let (t, u) = (stats[i], stats[1 - i]);
    assert(deviation(t, p) == 0);
    assert(deviation(u, p) > 0);
    let (du, nt, nu) = (deviation(u, p), t.count as int, u.count as int);
    assert(0 * nu == 0 && du * nt > 0) by (nonlinear_arith)
        requires
            du > 0,
            nt > 0,
    ;
    assert(scan(stats, p, 0) == -1);
    assert(scan(stats, p, 1) == 0);
}

/// Channel sums grow by at most one pixel's worth per pixel.
pub proof fn lemma_channel_bounds(px: Seq<Rgb>, ch: int)
    ensures
        0 <= channel_sum(px, ch) <= 255 * px.len(),
        0 <= channel_sum_sq(px, ch) <= 65025 * px.len(),
    decreases px.len(),
{
    if px.len() > 0 {
        lemma_channel_bounds(px.drop_last(), ch);
        let v = channel(px.last(), ch);
        assert(0 <= v * v <= 65025) by (nonlinear_arith)
            requires
                0 <= v <= 255,
        ;
    }
}

/// The statistics of one texture image under the id `block`.
pub fn texture_stat(block: Block, img: &TextureImage) -> (t: TextureStat)
    requires
        img.pixels@.len() <= PIXEL_LIMIT,
    ensures
        t.describes(block, img.pixels@),
        t.bounded(),
{
    let n = img.pixels.len();
    let mut r_sum: u128 = 0;
    let mut r_sum_sq: u128 = 0;
    let mut g_sum: u128 = 0;
    let mut g_sum_sq: u128 = 0;
    let mut b_sum: u128 = 0;
    let mut b_sum_sq: u128 = 0;
    let mut i: usize = 0;
    while i < n
        invariant
            i <= n,
            n == img.pixels@.len(),
            r_sum == channel_sum(img.pixels@.subrange(0, i as int), 0),
            r_sum_sq == channel_sum_sq(img.pixels@.subrange(0, i as int), 0),
            g_sum == channel_sum(img.pixels@.subrange(0, i as int), 1),
            g_sum_sq == channel_sum_sq(img.pixels@.subrange(0, i as int), 1),
            b_sum == channel_sum(img.pixels@.subrange(0, i as int), 2),
            b_sum_sq == channel_sum_sq(img.pixels@.subrange(0, i as int), 2),
        decreases n - i,
    {
        let p = img.pixels[i];
        let ghost pre = img.pixels@.subrange(0, i as int);
        let ghost next = img.pixels@.subrange(0, i as int + 1);
        proof {
            assert(next.drop_last() =~= pre);
            assert(next.last() == p);
            lemma_channel_bounds(pre, 0);
            lemma_channel_bounds(pre, 1);
            lemma_channel_bounds(pre, 2);
        }
        let r = p.r as u128;
        let g = p.g as u128;
        let b = p.b as u128;
        proof {
            lemma_mul_abs_le(r as int, r as int, 255, 255, 65025);
            lemma_mul_abs_le(g as int, g as int, 255, 255, 65025);
            lemma_mul_abs_le(b as int, b as int, 255, 255, 65025);
        }
        r_sum = r_sum + r;
        r_sum_sq = r_sum_sq + r * r;
        g_sum = g_sum + g;
        g_sum_sq = g_sum_sq + g * g;
        b_sum = b_sum + b;
        b_sum_sq = b_sum_sq + b * b;
        i = i + 1;
    }
    proof {
        assert(img.pixels@.subrange(0, n as int) =~= img.pixels@);
        lemma_channel_bounds(img.pixels@, 0);
        lemma_channel_bounds(img.pixels@, 1);
        lemma_channel_bounds(img.pixels@, 2);
    }
    TextureStat {
        block,
        r_sum,
        r_sum_sq,
        g_sum,
        g_sum_sq,
        b_sum,
        b_sum_sq,
        count: n as u128,
    }
}

/// The statistics of every available texture, in order, computed once.
pub fn precompute_imgs(available_textures: &Vec<(Block, TextureImage)>) -> (r: Vec<TextureStat>)
    requires
        forall|i: int|
            0 <= i < available_textures@.len() ==> (#[trigger] available_textures@[i]).1.pixels@.len()
                <= PIXEL_LIMIT,
    ensures
        r@.len() == available_textures@.len(),
        forall|i: int|
            0 <= i < r@.len() ==> #[trigger] r@[i].describes(
                available_textures@[i].0,
                available_textures@[i].1.pixels@,
            ) && r@[i].bounded(),
{
    let mut out: Vec<TextureStat> = Vec::new();
    let mut i: usize = 0;
    while i < available_textures.len()
        invariant
            i <= available_textures@.len(),
            out@.len() == i,
            forall|j: int|
                0 <= j < available_textures@.len() ==> (#[trigger] available_textures@[j]).1.pixels@.len()
                    <= PIXEL_LIMIT,
            forall|j: int|
                0 <= j < i ==> #[trigger] out@[j].describes(
                    available_textures@[j].0,
                    available_textures@[j].1.pixels@,
                ) && out@[j].bounded(),
        decreases available_textures@.len() - i,
    {
        let entry = &available_textures[i];
        out.push(texture_stat(entry.0, &entry.1));
        i = i + 1;
    }
    out
}

/// The block of the available texture nearest to a pixel of brightness
/// `pixel`; the first of equal costs wins, and none gives the default id.
pub fn nearest_texture(stats: &Vec<TextureStat>, pixel: u128) -> (b: Block)
    requires
        pixel <= 765,
        forall|i: int| 0 <= i < stats@.len() ==> #[trigger] stats@[i].bounded(),
    ensures
        b == nearest_block(stats@, pixel as int),
{
    let mut best: usize = 0;
    let mut found = false;
    let mut best_dev: u128 = 0;
    let mut best_count: u128 = 0;
    let mut i: usize = 0;
    while i < stats.len()
        invariant
            i <= stats@.len(),
            pixel <= 765,
            forall|i: int| 0 <= i < stats@.len() ==> #[trigger] stats@[i].bounded(),
            found ==> scan(stats@, pixel as int, i as int) == best as int && best < i
                && best_dev == deviation(stats@[best as int], pixel as int)
                && best_count == stats@[best as int].count,
            !found ==> scan(stats@, pixel as int, i as int) == -1,
            best_dev <= 0x400_0000_0000_0000,
            best_count <= PIXEL_LIMIT,
        decreases stats@.len() - i,
    {
        let t = stats[i];
        assert(t.bounded());
        if t.count != 0 {
            proof {
                lemma_mul_abs_le(pixel as int, t.count as int, 1024, 0x1_0000_0000_0000, 0x400_0000_0000_0000);
            }
            let total = t.r_sum + t.g_sum + t.b_sum;
            let pc = pixel * t.count;
            let dev = if total >= pc {
                total - pc
            } else {
                pc - total
            };
            proof {
                let l: int = 0x400_0000_0000_0000;
                lemma_mul_abs_le(dev as int, best_count as int, l, 0x1_0000_0000_0000, l * 0x1_0000_0000_0000);
                lemma_mul_abs_le(best_dev as int, t.count as int, l, 0x1_0000_0000_0000, l * 0x1_0000_0000_0000);
            }
            if !found || dev * best_count < best_dev * t.count {
                best = i;
                found = true;
                best_dev = dev;
                best_count = t.count;
            }
        }
        i = i + 1;
    }
    if found {
        stats[best].block
    } else {
        DEFAULT_TEXTURE_ID
    }
}

/// Maps in-plane weights of a geometry triangle to texture space: the point
/// `origin + w1 * a2b + w2 * a2c` of a UV triangle.
#[derive(Clone, Copy, Debug)]
pub struct TexturePlane {
    pub origin: Vec2,
    pub a2b: Vec2,
    pub a2c: Vec2,
}

impl TexturePlane {
    pub open spec fn wf(self) -> bool {
        &&& self.origin.within(COORD_LIMIT as int)
        &&& self.a2b.within(2 * COORD_LIMIT as int)
        &&& self.a2c.within(2 * COORD_LIMIT as int)
    }

    /// The texture-space point of weights `w = (n1, n2, d)`, in real units,
    /// as numerators over the common denominator `d * FIXED_ONE`.
    pub open spec fn point(self, w: (int, int, int)) -> (int, int, int) {
        (
            self.origin.x * w.2 + w.0 * self.a2b.x + w.1 * self.a2c.x,
            self.origin.y * w.2 + w.0 * self.a2b.y + w.1 * self.a2c.y,
            w.2 * FIXED_ONE,
        )
    }

    /// The mapping plane of the UV triangle `a, b, c`.
    pub fn new(a: &Vec2, b: &Vec2, c: &Vec2) -> (r: Self)
        requires
            a.within(COORD_LIMIT as int),
            b.within(COORD_LIMIT as int),
            c.within(COORD_LIMIT as int),
        ensures
            r.wf(),
            r.origin == *a,
            r.a2b.x == b.x - a.x && r.a2b.y == b.y - a.y,
            r.a2c.x == c.x - a.x && r.a2c.y == c.y - a.y,
    {
        TexturePlane { origin: *a, a2b: b.sub(a), a2c: c.sub(a) }
    }

    /// The texture-space point of the weights `w`.
    pub fn calc_p(&self, w: Weights) -> (r: (Ratio, Ratio))
        requires
            self.wf(),
            w.bounded(),
        ensures
            r.0.den == r.1.den,
            (r.0.num as int, r.1.num as int, r.0.den as int) == self.point(w@),
            r.0.den > 0,
    {
        proof {
            let l: int = 0x4_0000_0000_0000_0000_0000_0000;
            let m: int = 0x100_0000_0000_0000_0000_0000_0000_0000;
            lemma_mul_abs_le(self.origin.x as int, w.den as int, 0x10_0000, l, m);
            lemma_mul_abs_le(self.origin.y as int, w.den as int, 0x10_0000, l, m);
            lemma_mul_abs_le(w.w1 as int, self.a2b.x as int, l, 0x20_0000, m);
            lemma_mul_abs_le(w.w1 as int, self.a2b.y as int, l, 0x20_0000, m);
            lemma_mul_abs_le(w.w2 as int, self.a2c.x as int, l, 0x20_0000, m);
            lemma_mul_abs_le(w.w2 as int, self.a2c.y as int, l, 0x20_0000, m);
            lemma_mul_abs_le(w.den as int, 1024, l, 1024, m);
        }
        let x = self.origin.x as i128 * w.den + w.w1 * self.a2b.x as i128 + w.w2
            * self.a2c.x as i128;
        let y = self.origin.y as i128 * w.den + w.w1 * self.a2b.y as i128 + w.w2
            * self.a2c.y as i128;
        let den = w.den * FIXED_ONE as i128;
        (Ratio { num: x, den }, Ratio { num: y, den })
    }
}

/// The pixel under the texture-space point `(x / d, y / d)`, or `None` where
/// the point lies outside the image.
pub open spec fn pixel_at(pt: (int, int, int), img: TextureImage) -> Option<(int, int)> {
    let (x, y, d) = pt;
    if x < 0 || y < 0 || x / d >= img.width || y / d >= img.height {
        None
    } else {
        Some((x / d, y / d))
    }
}

/// The block id chosen for the weights `w`: the texture nearest to the
/// pixel that the mapping plane sends `w` to, or the default id where there
/// is no mapping plane, no image, or the point falls outside the image.
pub open spec fn texture_id(
    w: (int, int, int),
    tp: Option<TexturePlane>,
    img: Option<TextureImage>,
    stats: Seq<TextureStat>,
) -> Block {
    match (tp, img) {
        (Some(tp), Some(img)) => match pixel_at(tp.point(w), img) {
            Some((x, y)) => nearest_block(stats, brightness(img.pixels@[y * img.width + x])),
            None => DEFAULT_TEXTURE_ID,
        },
        _ => DEFAULT_TEXTURE_ID,
    }
}

/// The brightness of the pixel that the mapping plane sends `w` to, where
/// that pixel lies in the image.
pub open spec fn sampled_brightness(w: (int, int, int), tp: TexturePlane, img: TextureImage) -> int {
    let (x, y) = pixel_at(tp.point(w), img)->0;
    brightness(img.pixels@[y * img.width + x])
}

/// Of two textures, a sampled pixel whose brightness equals the per-pixel
/// mean brightness of one of them gets that texture's id, wherever the
/// other's mean differs.
pub proof fn lemma_sampled_pixel_selects_matching_texture(
    w: (int, int, int),
    tp: TexturePlane,
    img: TextureImage,
    stats: Seq<TextureStat>,
    i: int,
)
    requires
        pixel_at(tp.point(w), img) is Some,
        stats.len() == 2,
        0 <= i < 2,
        stats[i].count > 0,
        sampled_brightness(w, tp, img) * stats[i].count == stats[i].total(),
        stats[1 - i].count > 0,
        sampled_brightness(w, tp, img) * stats[1 - i].count != stats[1 - i].total(),
    ensures
        texture_id(w, Some(tp), Some(img), stats) == stats[i].block,
{
    lemma_matching_texture_selected(stats, sampled_brightness(w, tp, img), i);
}

/// The block id for the in-plane weights `w` (see `texture_id`).
pub fn get_texture_id(
    w: Weights,
    texture_plane: &Option<TexturePlane>,
    texture_image: &Option<TextureImage>,
    available_textures: &Vec<TextureStat>,
) -> (b: Block)
    requires
        w.bounded(),
        texture_plane matches Some(tp) ==> tp.wf(),
        texture_image matches Some(img) ==> img.wf(),
        forall|i: int|
            0 <= i < available_textures@.len() ==> #[trigger] available_textures@[i].bounded(),
    ensures
        b == texture_id(w@, *texture_plane, *texture_image, available_textures@),
{
    match (texture_plane, texture_image) {
        (Some(tp), Some(img)) => {
            let (px, py) = tp.calc_p(w);
            if px.num < 0 || py.num < 0 {
                return DEFAULT_TEXTURE_ID;
            }
            let x = px.num / px.den;
            let y = py.num / py.den;
            if x >= img.width as i128 || y >= img.height as i128 {
                return DEFAULT_TEXTURE_ID;
            }
            let xi = x as usize;
            let yi = y as usize;
            let wd = img.width as usize;
            let n = img.pixels.len();
            proof {
                let (xx, yy, ww, hh) = (xi as int, yi as int, wd as int, img.height as int);
                assert(yy * ww + xx < ww * hh) by (nonlinear_arith)
                    requires
                        0 <= xx < ww,
                        0 <= yy < hh,
                ;
                assert(0 <= yy * ww) by (nonlinear_arith)
                    requires
                        0 <= yy,
                        0 <= ww,
                ;
            }
            let idx = yi * wd + xi;
            let p = img.pixels[idx];
            let bright = p.r as u128 + p.g as u128 + p.b as u128;
            nearest_texture(available_textures, bright)
        },
        _ => DEFAULT_TEXTURE_ID,
    }
}

} // verus!
