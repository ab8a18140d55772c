//! Letterbox preprocessing: an RGBA frame is resized (Lanczos3, by
//! `fast_image_resize`) to `new_w × new_h`, centred in a square of side
//! `model_size` padded with the value 114, and laid out as three planes
//! (R, G, B) of `model_size × model_size` bytes each, row by row.
use vstd::prelude::*;

verus! {

/// What `fast_image_resize` computes when it resizes the `src_w × src_h`
/// RGBA image held at the start of `src` to `dst_w × dst_h` with its default
/// options (Lanczos3 convolution).
pub uninterp spec fn lanczos3_resized(
    src: Seq<u8>,
    src_w: u32,
    src_h: u32,
    dst_w: u32,
    dst_h: u32,
) -> Seq<u8>;

/// Resizes an RGBA image with `fast_image_resize::Resizer::resize` and its
/// default options. The contract names the result, states its length, and
/// states what the crate's source shows for two cases: a resize to the same
/// size copies the source pixels, and an empty source leaves the zeroed
/// destination untouched. The source buffer is only read.
#[verifier::external_body]
fn resize_rgba(src: &mut [u8], src_w: u32, src_h: u32, dst_w: u32, dst_h: u32) -> (r: Vec<u8>)
    requires
        src_w * src_h * 4 <= old(src)@.len(),
        dst_w * dst_h * 4 <= usize::MAX,
    ensures
        final(src)@ == old(src)@,
        r@ == lanczos3_resized(old(src)@, src_w, src_h, dst_w, dst_h),
        r@.len() == dst_w * dst_h * 4,
        dst_w == src_w && dst_h == src_h ==> r@ == old(src)@.take(src_w * src_h * 4),
        src_w == 0 || src_h == 0 ==> forall|i: int| 0 <= i < r@.len() ==> r@[i] == 0u8,
{
    let pixel = fast_image_resize::PixelType::U8x4;
    let src_image = fast_image_resize::images::Image::from_slice_u8(src_w, src_h, src, pixel).unwrap();
    let mut dst_image = fast_image_resize::images::Image::new(dst_w, dst_h, pixel);
    fast_image_resize::Resizer::new().resize(&src_image, &mut dst_image, None).unwrap();
    dst_image.into_vec()
}

/// The value that pads the letterbox around the resized image.
pub const PAD_VALUE: u8 = 114;

/// Padding before a side of length `placed` centred in `model_size`: the
/// smaller half of the slack, so that any odd pixel goes after the image.
pub open spec fn pad_before(model_size: int, placed: int) -> int {
    (model_size - placed) / 2
}

/// The padding in front of a side of length `placed` centred in a side of
/// length `model_size`.
pub fn letterbox_padding(model_size: u32, placed: u32) -> (pad: u32)
    requires
        placed <= model_size,
    ensures
        pad == pad_before(model_size as int, placed as int),
{
    (model_size - placed) / 2
}

/// The placed image is centred: the padding after it equals the padding
/// before it or exceeds it by one pixel, and the three parts fill the side.
pub proof fn lemma_letterbox_centred(model_size: int, placed: int)
    requires
        0 <= placed <= model_size,
    ensures
        ({
            let before = pad_before(model_size, placed);
            let after = model_size - placed - before;
            &&& 0 <= before
            &&& before <= after <= before + 1
            &&& before + placed + after == model_size
        }),
{
}

/// Position of channel `c` of pixel (`row`, `col`) in the planes of a
/// square of side `m`.
pub open spec fn plane_index(m: int, c: int, row: int, col: int) -> int {
    c * (m * m) + row * m + col
}

/// Whether pixel (`row`, `col`) of the square lies on the resized image.
pub open spec fn on_image(new_w: int, new_h: int, pad_left: int, pad_top: int, row: int, col: int) -> bool {
    pad_top <= row < pad_top + new_h && pad_left <= col < pad_left + new_w
}

/// The byte of channel `c` at pixel (`row`, `col`) of the letterboxed
/// square: the resized image's pixel where it lies, `PAD_VALUE` elsewhere.
pub open spec fn letterbox_value(
    resized: Seq<u8>,
    new_w: int,
    new_h: int,
    pad_left: int,
    pad_top: int,
    c: int,
    row: int,
    col: int,
) -> u8 {
    if on_image(new_w, new_h, pad_left, pad_top, row, col) {
        resized[((row - pad_top) * new_w + (col - pad_left)) * 4 + c]
    } else {
        PAD_VALUE
    }
}

/// The planes hold, for every channel and pixel of the square, its
/// letterbox value.
pub open spec fn planes_match(
    planes: Seq<u8>,
    resized: Seq<u8>,
    m: int,
    new_w: int,
    new_h: int,
    pad_left: int,
    pad_top: int,
) -> bool {
    &&& planes.len() == 3 * (m * m)
    &&& forall|c: int, row: int, col: int|
        0 <= c < 3 && 0 <= row < m && 0 <= col < m ==> #[trigger] planes[plane_index(m, c, row, col)]
            == letterbox_value(resized, new_w, new_h, pad_left, pad_top, c, row, col)
}

/// The planes are determined by the resized image and the geometry: two
/// plane buffers that both match them are equal. So the letterbox of a frame
/// is a function of the frame's bytes and sizes.
pub proof fn lemma_planes_match_unique(
    p1: Seq<u8>,
    p2: Seq<u8>,
    resized: Seq<u8>,
    m: int,
    new_w: int,
    new_h: int,
    pad_left: int,
    pad_top: int,
)
    requires
        m > 0,
        planes_match(p1, resized, m, new_w, new_h, pad_left, pad_top),
        planes_match(p2, resized, m, new_w, new_h, pad_left, pad_top),
    ensures
        p1 == p2,
{
    assert forall|i: int| 0 <= i < p1.len() implies p1[i] == p2[i] by {
        lemma_plane_index_onto(m, i);
        let c = i / (m * m);
        let row = (i % (m * m)) / m;
        let col = (i % (m * m)) % m;
        assert(p1[plane_index(m, c, row, col)] == p2[plane_index(m, c, row, col)]);
    }
    assert(p1 =~= p2);
}

/// Distinct (channel, row, column) triples have distinct plane positions.
pub proof fn lemma_plane_index_unique(m: int, c1: int, r1: int, k1: int, c2: int, r2: int, k2: int)
    requires
        0 < m,
        0 <= c1,
        0 <= c2,
        0 <= r1 < m,
        0 <= r2 < m,
        0 <= k1 < m,
        0 <= k2 < m,
        plane_index(m, c1, r1, k1) == plane_index(m, c2, r2, k2),
    ensures
        c1 == c2 && r1 == r2 && k1 == k2,
{
    lemma_plane_index_parts(m, c1, r1, k1);
    lemma_plane_index_parts(m, c2, r2, k2);
}

/// A plane position determines its channel, row and column.
pub proof fn lemma_plane_index_parts(m: int, c: int, row: int, col: int)
    requires
        0 < m,
        0 <= c,
        0 <= row < m,
        0 <= col < m,
    ensures
        plane_index(m, c, row, col) / (m * m) == c,
        (plane_index(m, c, row, col) % (m * m)) / m == row,
        (plane_index(m, c, row, col) % (m * m)) % m == col,
{
    let rest = row * m + col;
    assert(0 <= rest < m * m) by (nonlinear_arith)
        requires
            0 <= row < m,
            0 <= col < m,
            rest == row * m + col,
    ;
    assert(m * m > 0) by (nonlinear_arith)
        requires
            0 < m,
    ;
    vstd::arithmetic::div_mod::lemma_fundamental_div_mod_converse(
        plane_index(m, c, row, col),
        m * m,
        c,
        rest,
    );
    vstd::arithmetic::div_mod::lemma_fundamental_div_mod_converse(rest, m, row, col);
}

/// Every position of the planes belongs to one channel, row and column.
pub proof fn lemma_plane_index_onto(m: int, i: int)
    requires
        0 < m,
        0 <= i < 3 * (m * m),
    ensures
        ({
            let c = i / (m * m);
            let row = (i % (m * m)) / m;
            let col = (i % (m * m)) % m;
            &&& 0 <= c < 3
            &&& 0 <= row < m
            &&& 0 <= col < m
            &&& plane_index(m, c, row, col) == i
        }),
{
    let a = m * m;
    assert(a > 0) by (nonlinear_arith)
        requires
            0 < m,
            a == m * m,
    ;
    vstd::arithmetic::div_mod::lemma_fundamental_div_mod(i, a);
    vstd::arithmetic::div_mod::lemma_mod_bound(i, a);
    vstd::arithmetic::div_mod::lemma_div_pos_is_pos(i, a);
    let rest = i % a;
    vstd::arithmetic::div_mod::lemma_fundamental_div_mod(rest, m);
    vstd::arithmetic::div_mod::lemma_mod_bound(rest, m);
    vstd::arithmetic::div_mod::lemma_div_pos_is_pos(rest, m);
    assert(i / a < 3) by (nonlinear_arith)
        requires
            i == a * (i / a) + rest,
            0 <= rest,
            i < 3 * a,
            a > 0,
    ;
    assert(rest / m < m) by (nonlinear_arith)
        requires
            rest == m * (rest / m) + rest % m,
            0 <= rest % m,
            rest < a,
            a == m * m,
            m > 0,
    ;
    assert(plane_index(m, i / a, rest / m, rest % m) == i) by (nonlinear_arith)
        requires
            i == a * (i / a) + rest,
            rest == m * (rest / m) + rest % m,
            a == m * m,
    ;
}

/// Whether channel bytes of pixel (`row`, `col`) have been copied once the
/// rows of the resized image before `y`, and the first `x` pixels of row
/// `y`, have been placed.
pub open spec fn copied(
    new_w: int,
    new_h: int,
    pad_left: int,
    pad_top: int,
    y: int,
    x: int,
    row: int,
    col: int,
) -> bool {
    on_image(new_w, new_h, pad_left, pad_top, row, col) && (row < pad_top + y || (row == pad_top + y
        && col < pad_left + x))
}

/// The planes hold the letterbox value where a byte has been copied, and
/// the padding value elsewhere.
pub open spec fn planes_filled(
    planes: Seq<u8>,
    resized: Seq<u8>,
    m: int,
    new_w: int,
    new_h: int,
    pad_left: int,
    pad_top: int,
    y: int,
    x: int,
) -> bool {
    forall|c: int, row: int, col: int|
        0 <= c < 3 && 0 <= row < m && 0 <= col < m ==> #[trigger] planes[plane_index(m, c, row, col)]
            == if copied(new_w, new_h, pad_left, pad_top, y, x, row, col) {
            letterbox_value(resized, new_w, new_h, pad_left, pad_top, c, row, col)
        } else {
            PAD_VALUE
        }
}

/// A letterboxed frame: three planes of `model_size × model_size` bytes and
/// the padding in front of the resized image on each axis.
pub struct Letterbox {
    pub planes: Vec<u8>,
    pub pad_left: u32,
    pub pad_top: u32,
}

/// Centres a resized `new_w × new_h` RGBA image in a square of side
/// `model_size` padded with `PAD_VALUE`, and splits its R, G and B channels
/// into three planes (the alpha channel is dropped).
pub fn letterbox_planes(resized: &[u8], new_w: u32, new_h: u32, model_size: u32) -> (r: Letterbox)
    requires
        new_w <= model_size,
        new_h <= model_size,
        model_size <= 65535,
        3 * (model_size * model_size) <= usize::MAX,
        new_w * new_h * 4 <= resized@.len(),
    ensures
        r.pad_left == pad_before(model_size as int, new_w as int),
        r.pad_top == pad_before(model_size as int, new_h as int),
        planes_match(
            r.planes@,
            resized@,
            model_size as int,
            new_w as int,
            new_h as int,
            r.pad_left as int,
            r.pad_top as int,
        ),
        r.pad_left == (model_size - new_w) / 2,
        r.pad_top == (model_size - new_h) / 2,
        r.planes@.len() == 3 * (model_size * model_size),
        forall|c: int, row: int, col: int|
            0 <= c < 3 && 0 <= row < model_size && 0 <= col < model_size ==> #[trigger] r.planes@[plane_index(
                model_size as int,
                c,
                row,
                col,
            )] == if r.pad_top <= row < r.pad_top + new_h && r.pad_left <= col < r.pad_left + new_w {
                resized@[((row - r.pad_top) * new_w + (col - r.pad_left)) * 4 + c]
            } else {
                114u8
            },
{
    let pad_left = letterbox_padding(model_size, new_w);
    let pad_top = letterbox_padding(model_size, new_h);
    let m = model_size as usize;
    let w = new_w as usize;
    let h = new_h as usize;
    let pl = pad_left as usize;
    let pt = pad_top as usize;
    assert(m * m <= 65535 * 65535) by (nonlinear_arith)
        requires
            m <= 65535,
    ;
    let area = m * m;
    let resized_len = resized.len();
    assert(w * h * 4 <= resized_len);
    let mut planes = vec![PAD_VALUE; 3 * area];
    assert(planes_filled(planes@, resized@, m as int, w as int, h as int, pl as int, pt as int, 0, 0))
        by {
        assert forall|c: int, row: int, col: int|
            0 <= c < 3 && 0 <= row < m && 0 <= col < m implies #[trigger] planes@[plane_index(
            m as int,
            c,
            row,
            col,
        )] == PAD_VALUE by {
            lemma_plane_index_onto_bound(m as int, c, row, col);
        }
    }
    let mut y: usize = 0;
    while y < h
        invariant
            y <= h,
            pl + w <= m,
            pt + h <= m,
            m <= 65535,
            area == m * m,
            3 * area <= usize::MAX,
            w * h * 4 <= resized@.len(),
            w * h * 4 <= usize::MAX,
            planes@.len() == 3 * area,
            planes_filled(planes@, resized@, m as int, w as int, h as int, pl as int, pt as int, y as int, 0),
        decreases h - y,
    {
        assert((y + pt) * m + pl + w <= m * m) by (nonlinear_arith)
            requires
                y < h,
                pt + h <= m,
                pl + w <= m,
        ;
        assert(y * w * 4 + w * 4 <= w * h * 4 && y * w <= w * h) by (nonlinear_arith)
            requires
                y < h,
        ;
        let row_base = (y + pt) * m + pl;
        let src_base = y * w * 4;
        let mut x: usize = 0;
        while x < w
            invariant
                y < h,
                x <= w,
                pl + w <= m,
                pt + h <= m,
                area == m * m,
                3 * area <= usize::MAX,
                w * h * 4 <= resized@.len(),
                w * h * 4 <= usize::MAX,
                row_base == (y + pt) * m + pl,
                row_base + w <= area,
                src_base == y * w * 4,
                src_base + w * 4 <= w * h * 4,
                planes@.len() == 3 * area,
                planes_filled(planes@, resized@, m as int, w as int, h as int, pl as int, pt as int, y as int, x as int),
            decreases w - x,
        {
            let bi = row_base + x;
            let px = src_base + x * 4;
            let ghost before = planes@;
            planes.set(bi, resized[px]);
            planes.set(area + bi, resized[px + 1]);
            planes.set(2 * area + bi, resized[px + 2]);
            proof {
                let mi = m as int;
                let row0 = (pt + y) as int;
                let col0 = (pl + x) as int;
                assert(bi == plane_index(mi, 0, row0, col0));
                assert(area + bi == plane_index(mi, 1, row0, col0));
                assert(2 * area + bi == plane_index(mi, 2, row0, col0));
                assert(px == ((row0 - pt) * w + (col0 - pl)) * 4) by (nonlinear_arith)
                    requires
                        px == y * w * 4 + x * 4,
                        row0 == pt + y,
                        col0 == pl + x,
                ;
                assert forall|c: int, row: int, col: int|
                    0 <= c < 3 && 0 <= row < m && 0 <= col < m implies #[trigger] planes@[plane_index(
                    mi,
                    c,
                    row,
                    col,
                )] == if copied(w as int, h as int, pl as int, pt as int, y as int, x + 1, row, col) {
                    letterbox_value(resized@, w as int, h as int, pl as int, pt as int, c, row, col)
                } else {
                    PAD_VALUE
                } by {
                    let i = plane_index(mi, c, row, col);
                    if row == row0 && col == col0 {
                    } else {
                        if i == plane_index(mi, 0, row0, col0) {
                            lemma_plane_index_unique(mi, c, row, col, 0, row0, col0);
                        }
                        if i == plane_index(mi, 1, row0, col0) {
                            lemma_plane_index_unique(mi, c, row, col, 1, row0, col0);
                        }
                        if i == plane_index(mi, 2, row0, col0) {
                            lemma_plane_index_unique(mi, c, row, col, 2, row0, col0);
                        }
                        lemma_plane_index_onto_bound(mi, c, row, col);
                        assert(planes@[i] == before[i]);
                    }
                }
            }
            x = x + 1;
        }
        y = y + 1;
    }
    Letterbox { planes, pad_left, pad_top }
}

/// Letterboxes an RGBA frame of `src_w × src_h` pixels: resizes it to
/// `new_w × new_h` with `fast_image_resize`, then centres and splits it as
/// `letterbox_planes` does. The frame is only read.
pub fn letterbox_rgba(
    rgba: &mut [u8],
    src_w: u32,
    src_h: u32,
    new_w: u32,
    new_h: u32,
    model_size: u32,
) -> (r: Letterbox)
    requires
        src_w * src_h * 4 <= old(rgba)@.len(),
        new_w <= model_size,
        new_h <= model_size,
        model_size <= 65535,
        3 * (model_size * model_size) <= usize::MAX,
        new_w * new_h * 4 <= usize::MAX,
    ensures
        final(rgba)@ == old(rgba)@,
        r.pad_left == pad_before(model_size as int, new_w as int),
        r.pad_top == pad_before(model_size as int, new_h as int),
        planes_match(
            r.planes@,
            lanczos3_resized(old(rgba)@, src_w, src_h, new_w, new_h),
            model_size as int,
            new_w as int,
            new_h as int,
            r.pad_left as int,
            r.pad_top as int,
        ),
        r.pad_left == (model_size - new_w) / 2,
        r.pad_top == (model_size - new_h) / 2,
        r.planes@.len() == 3 * (model_size * model_size),
        forall|c: int, row: int, col: int|
            0 <= c < 3 && 0 <= row < model_size && 0 <= col < model_size ==> #[trigger] r.planes@[plane_index(
                model_size as int,
                c,
                row,
                col,
            )] == if r.pad_top <= row < r.pad_top + new_h && r.pad_left <= col < r.pad_left + new_w {
                lanczos3_resized(old(rgba)@, src_w, src_h, new_w, new_h)[((row - r.pad_top) * new_w + (
                col - r.pad_left)) * 4 + c]
            } else {
                114u8
            },
        new_w == src_w && new_h == src_h ==> planes_match(
            r.planes@,
            old(rgba)@.take(src_w * src_h * 4),
            model_size as int,
            new_w as int,
            new_h as int,
            r.pad_left as int,
            r.pad_top as int,
        ),
{
    let resized = resize_rgba(rgba, src_w, src_h, new_w, new_h);
    letterbox_planes(resized.as_slice(), new_w, new_h, model_size)
}

proof fn lemma_plane_index_onto_bound(m: int, c: int, row: int, col: int)
    requires
        0 < m,
        0 <= c < 3,
        0 <= row < m,
        0 <= col < m,
    ensures
        0 <= plane_index(m, c, row, col) < 3 * (m * m),
{
    assert(0 <= plane_index(m, c, row, col) < 3 * (m * m)) by (nonlinear_arith)
        requires
            0 <= c < 3,
            0 <= row < m,
            0 <= col < m,
    ;
}

} // verus!
