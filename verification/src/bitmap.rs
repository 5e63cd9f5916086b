//! RGBA8 images as plain bytes, and the pixel work that is done on them.
//!
//! An image is stored row by row, four bytes for each pixel: red, green,
//! blue, alpha.

use vstd::prelude::*;

use crate::model::{rgba_buffer_len, rgba_len};

verus! {

/// One pixel: red, green, blue, alpha.
#[derive(Debug, Clone, Copy, PartialEq, Eq, Structural)]
pub struct Rgba {
    pub r: u8,
    pub g: u8,
    pub b: u8,
    pub a: u8,
}

/// The fully transparent pixel.
pub open spec fn clear_pixel() -> Rgba {
    Rgba { r: 0, g: 0, b: 0, a: 0 }
}

/// The pixel stored in the four bytes of `data` from `at` on.
pub open spec fn pixel_in(data: Seq<u8>, at: int) -> Rgba {
    Rgba { r: data[at], g: data[at + 1], b: data[at + 2], a: data[at + 3] }
}

/// `data` with the four bytes from `at` on replaced by the pixel `p`.
pub open spec fn with_pixel(data: Seq<u8>, at: int, p: Rgba) -> Seq<u8> {
    data.update(at, p.r).update(at + 1, p.g).update(at + 2, p.b).update(at + 3, p.a)
}

/// Where the pixel in column `x` of row `y` starts in the bytes of an image
/// that is `width` pixels wide.
pub open spec fn offset_of(width: u32, x: int, y: int) -> int {
    4 * (y * width + x)
}

/// A pixel inside an image lies wholly inside its bytes, and two different
/// pixels do not share a byte.
pub proof fn lemma_offset_bounds(width: u32, height: u32, x: int, y: int)
    requires
        0 <= x < width,
        0 <= y < height,
    ensures
        0 <= offset_of(width, x, y),
        offset_of(width, x, y) + 4 <= rgba_len(width, height),
        y * width + x < width * height,
{
    assert(y * width + x < width * height) by (nonlinear_arith)
        requires
            0 <= x < width,
            0 <= y < height,
    ;
    assert(0 <= y * width) by (nonlinear_arith)
        requires
            0 <= y,
            0 <= width,
    ;
}

/// The plain content of an image: its size and its bytes.
pub ghost struct ImageView {
    pub width: u32,
    pub height: u32,
    pub bytes: Seq<u8>,
}

/// A fully transparent image.
pub open spec fn blank(width: u32, height: u32) -> ImageView {
    ImageView { width, height, bytes: Seq::new(rgba_len(width, height) as nat, |i: int| 0u8) }
}

/// How an image is sampled when its size changes.
#[derive(Debug, Clone, Copy, PartialEq, Eq, Structural)]
pub enum Filter {
    /// Linear interpolation.
    Triangle,
    /// Lanczos resampling with window 3.
    Lanczos3,
}

/// The image that the `image` crate decodes from `data` in the format that
/// the first bytes of `data` tell, taken as RGBA8; `None` where it decodes
/// none.
pub uninterp spec fn decoded_image(data: Seq<u8>) -> Option<ImageView>;

/// The image that the `image` crate makes of `source` when it scales it to
/// the largest size that fits into `width` by `height` and keeps the ratio
/// of its sides.
pub uninterp spec fn fitted_image(source: ImageView, width: u32, height: u32, filter: Filter) -> ImageView;

/// The bytes of the image that the `image` crate makes of `source` when it
/// scales it to exactly `width` by `height`.
pub uninterp spec fn resampled_bytes(source: ImageView, width: u32, height: u32, filter: Filter) -> Seq<
    u8,
>;

/// The bytes of `bottom` after the `image` crate has blended `top` over it,
/// the left upper corner of `top` at column `x` and row `y` of `bottom`.
pub uninterp spec fn overlaid_bytes(bottom: ImageView, top: ImageView, x: i64, y: i64) -> Seq<u8>;

/// Whether the `image` crate can scale between images of these sizes: the
/// buffers that it needs on the way can be addressed on this machine.
pub open spec fn scalable(w0: u32, h0: u32, w1: u32, h1: u32) -> bool {
    16 * wider(w0, w1) * wider(h0, h1) <= isize::MAX
}

/// The larger of two sides, and at least one.
pub open spec fn wider(a: u32, b: u32) -> int {
    if a >= b && a >= 1 {
        a as int
    } else if b >= 1 {
        b as int
    } else {
        1
    }
}

/// Two different pixels of an image start at least four bytes apart.
pub proof fn lemma_pixels_apart(width: u32, x: int, y: int, x2: int, y2: int)
    requires
        0 <= x < width,
        0 <= x2 < width,
        0 <= y,
        0 <= y2,
        x != x2 || y != y2,
    ensures
        offset_of(width, x, y) + 4 <= offset_of(width, x2, y2) || offset_of(width, x2, y2) + 4
            <= offset_of(width, x, y),
{
    if y < y2 {
        assert(y * width + x < y2 * width + x2) by (nonlinear_arith)
            requires
                0 <= x < width,
                0 <= x2,
                0 <= y < y2,
        ;
    } else if y2 < y {
        assert(y2 * width + x2 < y * width + x) by (nonlinear_arith)
            requires
                0 <= x2 < width,
                0 <= x,
                0 <= y2 < y,
        ;
    }
}

/// An RGBA8 image. Its buffer has four bytes for each of its pixels, never
/// fewer or more.
pub struct Raster {
    width: u32,
    height: u32,
    data: Vec<u8>,
}

impl Raster {
    #[verifier::type_invariant]
    spec fn well_formed(self) -> bool {
        self.data@.len() == rgba_len(self.width, self.height)
    }

    pub closed spec fn spec_width(&self) -> u32 {
        self.width
    }

    pub closed spec fn spec_height(&self) -> u32 {
        self.height
    }

    /// The bytes of the image, row by row.
    pub closed spec fn bytes(&self) -> Seq<u8> {
        self.data@
    }

    /// The size and the bytes of the image.
    pub open spec fn content(&self) -> ImageView {
        ImageView { width: self.spec_width(), height: self.spec_height(), bytes: self.bytes() }
    }

    /// The pixel in column `x` of row `y`.
    pub open spec fn pixel(&self, x: int, y: int) -> Rgba {
        pixel_in(self.bytes(), offset_of(self.spec_width(), x, y))
    }

    /// A fully transparent image of the given size; `None` where a buffer
    /// of that size cannot be allocated on this machine.
    pub fn new(width: u32, height: u32) -> (made: Option<Raster>)
        ensures
            made is Some <==> rgba_len(width, height) <= isize::MAX,
            made matches Some(image) ==> {
                &&& image.spec_width() == width
                &&& image.spec_height() == height
                &&& image.bytes() == Seq::new(rgba_len(width, height) as nat, |i: int| 0u8)
            },
    {
        match rgba_buffer_len(width, height) {
            Some(len) => {
                if len > isize::MAX as usize {
                    return None;
                }
                let data: Vec<u8> = vec![0u8; len];
                assert(data@ =~= Seq::new(rgba_len(width, height) as nat, |i: int| 0u8));
                Some(Raster { width, height, data })
            },
            None => None,
        }
    }

    /// Takes `data` as the bytes of an image of `width` by `height` pixels,
    /// if it has exactly the length of one.
    pub fn from_raw(width: u32, height: u32, data: Vec<u8>) -> (made: Option<Raster>)
        ensures
            made is Some <==> data@.len() == rgba_len(width, height),
            made matches Some(image) ==> {
                &&& image.spec_width() == width
                &&& image.spec_height() == height
                &&& image.bytes() == data@
            },
    {
        let given: usize = data.len();
        match rgba_buffer_len(width, height) {
            Some(len) => {
                if given == len {
                    Some(Raster { width, height, data })
                } else {
                    None
                }
            },
            None => None,
        }
    }

    #[verifier::when_used_as_spec(spec_width)]
    pub fn width(&self) -> (w: u32)
        ensures
            w == self.spec_width(),
    {
        self.width
    }

    #[verifier::when_used_as_spec(spec_height)]
    pub fn height(&self) -> (h: u32)
        ensures
            h == self.spec_height(),
    {
        self.height
    }

    /// The bytes of the image.
    pub fn as_raw(&self) -> (bytes: &[u8])
        ensures
            bytes@ == self.bytes(),
            bytes@.len() == rgba_len(self.spec_width(), self.spec_height()),
    {
        proof {
            use_type_invariant(self);
        }
        self.data.as_slice()
    }

    /// Gives the buffer up.
    pub fn into_raw(self) -> (bytes: Vec<u8>)
        ensures
            bytes@ == self.bytes(),
            bytes@.len() == rgba_len(self.spec_width(), self.spec_height()),
    {
        proof {
            use_type_invariant(&self);
        }
        self.data
    }

    /// The pixel in column `x` of row `y`.
    pub fn get_pixel(&self, x: u32, y: u32) -> (p: Rgba)
        requires
            x < self.spec_width(),
            y < self.spec_height(),
        ensures
            p == self.pixel(x as int, y as int),
    {
        proof {
            use_type_invariant(self);
            lemma_offset_bounds(self.width, self.height, x as int, y as int);
        }
        let n: usize = self.data.len();
        assert(0 <= y * self.width <= y * self.width + x);
        let at: usize = 4 * (y as usize * self.width as usize + x as usize);
        Rgba { r: self.data[at], g: self.data[at + 1], b: self.data[at + 2], a: self.data[at + 3] }
    }

    /// Sets the pixel in column `x` of row `y`; every other pixel stays.
    pub fn put_pixel(&mut self, x: u32, y: u32, p: Rgba)
        requires
            x < old(self).spec_width(),
            y < old(self).spec_height(),
        ensures
            final(self).spec_width() == old(self).spec_width(),
            final(self).spec_height() == old(self).spec_height(),
            final(self).bytes() == with_pixel(
                old(self).bytes(),
                offset_of(old(self).spec_width(), x as int, y as int),
                p,
            ),
            final(self).pixel(x as int, y as int) == p,
            forall|x2: int, y2: int|
                0 <= x2 < old(self).spec_width() && 0 <= y2 < old(self).spec_height() && (x2 != x
                    || y2 != y) ==> #[trigger] final(self).pixel(x2, y2) == old(self).pixel(
                    x2,
                    y2,
                ),
    {
        proof {
            use_type_invariant(&*self);
            lemma_offset_bounds(self.width, self.height, x as int, y as int);
            assert forall|x2: int, y2: int|
                0 <= x2 < self.width && 0 <= y2 < self.height && (x2 != x || y2 != y) implies {
                let o = offset_of(self.width, x as int, y as int);
                let o2 = #[trigger] offset_of(self.width, x2, y2);
                (o + 4 <= o2 || o2 + 4 <= o) && 0 <= o2 && o2 + 4 <= rgba_len(
                    self.width,
                    self.height,
                )
            } by {
                lemma_pixels_apart(self.width, x as int, y as int, x2, y2);
                lemma_offset_bounds(self.width, self.height, x2, y2);
            }
        }
        let n: usize = self.data.len();
        assert(0 <= y * self.width <= y * self.width + x);
        let at: usize = 4 * (y as usize * self.width as usize + x as usize);
        self.data[at] = p.r;
        self.data[at + 1] = p.g;
        self.data[at + 2] = p.b;
        self.data[at + 3] = p.a;
    }
}

/// The 32-bit word of a pixel for a bitmap of the desktop shell: alpha in
/// the highest byte, then red, green and blue.
pub open spec fn argb_word(p: Rgba) -> u32 {
    (p.a as u32) << 24 | (p.r as u32) << 16 | (p.g as u32) << 8 | (p.b as u32)
}

/// The words of all whole pixels in `rgba`, in order.
pub open spec fn argb_words(rgba: Seq<u8>) -> Seq<u32> {
    Seq::new((rgba.len() / 4) as nat, |i: int| argb_word(pixel_in(rgba, 4 * i)))
}

/// Packs each pixel of an RGBA buffer into one ARGB word. Bytes after the
/// last whole pixel are left out.
pub fn pack_argb(rgba: &[u8]) -> (words: Vec<u32>)
    ensures
        words@ == argb_words(rgba@),
{
    let len: usize = rgba.len();
    let count: usize = len / 4;
    let mut words: Vec<u32> = Vec::new();
    let mut i: usize = 0;
    while i < count
        invariant
            i <= count,
            len == rgba@.len(),
            count == rgba@.len() / 4,
            words@.len() == i,
            forall|k: int| 0 <= k < i ==> words@[k] == argb_word(pixel_in(rgba@, 4 * k)),
        decreases count - i,
    {
        let at: usize = 4 * i;
        let r: u8 = rgba[at];
        let g: u8 = rgba[at + 1];
        let b: u8 = rgba[at + 2];
        let a: u8 = rgba[at + 3];
        words.push((a as u32) << 24 | (r as u32) << 16 | (g as u32) << 8 | (b as u32));
        i += 1;
    }
    assert(words@ =~= argb_words(rgba@));
    words
}

/// A pixel with its red and blue bytes exchanged.
pub open spec fn red_blue_swapped(p: Rgba) -> Rgba {
    Rgba { r: p.b, g: p.g, b: p.r, a: p.a }
}

/// Exchanges the red and the blue byte of every pixel: BGRA becomes RGBA
/// and RGBA becomes BGRA.
pub fn swap_red_blue(data: &mut Vec<u8>)
    requires
        old(data)@.len() % 4 == 0,
    ensures
        final(data)@.len() == old(data)@.len(),
        forall|k: int|
            0 <= k < old(data)@.len() / 4 ==> #[trigger] pixel_in(final(data)@, 4 * k)
                == red_blue_swapped(pixel_in(old(data)@, 4 * k)),
{
    let ghost before = data@;
    let len: usize = data.len();
    let count: usize = len / 4;
    let mut i: usize = 0;
    while i < count
        invariant
            i <= count,
            len == before.len(),
            count == before.len() / 4,
            before.len() % 4 == 0,
            data@.len() == before.len(),
            forall|k: int|
                0 <= k < i ==> #[trigger] pixel_in(data@, 4 * k) == red_blue_swapped(
                    pixel_in(before, 4 * k),
                ),
            forall|j: int| 4 * i <= j < before.len() ==> data@[j] == before[j],
        decreases count - i,
    {
        let at: usize = 4 * i;
        let first: u8 = data[at];
        let third: u8 = data[at + 2];
        let ghost prior = data@;
        data[at] = third;
        data[at + 2] = first;
        assert forall|k: int| 0 <= k < i + 1 implies #[trigger] pixel_in(data@, 4 * k)
            == red_blue_swapped(pixel_in(before, 4 * k)) by {
            if k < i {
                assert(pixel_in(data@, 4 * k) == pixel_in(prior, 4 * k));
            }
        }
        i += 1;
    }
}

/// `fg` laid over `bg` by the shell's blending rule. A fully transparent
/// `fg` leaves `bg` as it is. Each channel is computed in whole numbers and
/// then cut to its low eight bits.
pub open spec fn blend_pixel(bg: Rgba, fg: Rgba) -> Rgba {
    let ta = fg.a as int;
    let rest = 255 - ta;
    let out_a = ta + (bg.a as int * rest) / 255;
    if ta > 0 && out_a > 0 {
        Rgba {
            r: (((fg.r as int * ta + bg.r as int * bg.a as int * rest / 255) / out_a) as u32) as u8,
            g: (((fg.g as int * ta + bg.g as int * bg.a as int * rest / 255) / out_a) as u32) as u8,
            b: (((fg.b as int * ta + bg.b as int * bg.a as int * rest / 255) / out_a) as u32) as u8,
            a: (out_a as u32) as u8,
        }
    } else {
        bg
    }
}

/// Lays the pixel `fg` over the pixel `bg`.
pub fn blend(bg: Rgba, fg: Rgba) -> (out: Rgba)
    ensures
        out == blend_pixel(bg, fg),
{
    let ta: u32 = fg.a as u32;
    if ta == 0 {
        return bg;
    }
    let rest: u32 = 255 - ta;
    let ba: u32 = bg.a as u32;
    assert(ba * rest <= 255 * 255) by (nonlinear_arith)
        requires
            0 <= ba <= 255,
            0 <= rest <= 255,
    ;
    let out_a: u32 = ta + (ba * rest) / 255;
    if out_a == 0 {
        return bg;
    }
    let r: u32 = mix(fg.r, bg.r, ta, ba, rest, out_a);
    let g: u32 = mix(fg.g, bg.g, ta, ba, rest, out_a);
    let b: u32 = mix(fg.b, bg.b, ta, ba, rest, out_a);
    Rgba {
        r: #[verifier::truncate]
        (r as u8),
        g: #[verifier::truncate]
        (g as u8),
        b: #[verifier::truncate]
        (b as u8),
        a: #[verifier::truncate]
        (out_a as u8),
    }
}

/// One colour channel of a blended pixel, before it is cut to eight bits.
fn mix(fg: u8, bg: u8, ta: u32, ba: u32, rest: u32, out_a: u32) -> (v: u32)
    requires
        ta <= 255,
        ba <= 255,
        rest <= 255,
        out_a > 0,
    ensures
        v == (fg as int * ta + bg as int * ba * rest / 255) / (out_a as int),
{
    let f: u32 = fg as u32;
    let b: u32 = bg as u32;
    assert(f * ta <= 255 * 255) by (nonlinear_arith)
        requires
            0 <= f <= 255,
            0 <= ta <= 255,
    ;
    assert(b * ba <= 255 * 255) by (nonlinear_arith)
        requires
            0 <= b <= 255,
            0 <= ba <= 255,
    ;
    assert(b * ba * rest <= 255 * 255 * 255) by (nonlinear_arith)
        requires
            0 <= b * ba <= 255 * 255,
            0 <= rest <= 255,
    ;
    (f * ta + b * ba * rest / 255) / out_a
}

/// Lays the image in `top` over the image in `under`, pixel by pixel. Both
/// are RGBA buffers; `top` has a pixel for each pixel of `under`.
pub fn blend_over(under: &mut Vec<u8>, top: &[u8])
    requires
        old(under)@.len() % 4 == 0,
        top@.len() >= old(under)@.len(),
    ensures
        final(under)@.len() == old(under)@.len(),
        forall|k: int|
            0 <= k < old(under)@.len() / 4 ==> #[trigger] pixel_in(final(under)@, 4 * k)
                == blend_pixel(pixel_in(old(under)@, 4 * k), pixel_in(top@, 4 * k)),
{
    let ghost before = under@;
    let len: usize = under.len();
    let count: usize = len / 4;
    let mut i: usize = 0;
    while i < count
        invariant
            i <= count,
            len == before.len(),
            count == before.len() / 4,
            before.len() % 4 == 0,
            under@.len() == before.len(),
            top@.len() >= before.len(),
            forall|k: int|
                0 <= k < i ==> #[trigger] pixel_in(under@, 4 * k) == blend_pixel(
                    pixel_in(before, 4 * k),
                    pixel_in(top@, 4 * k),
                ),
            forall|j: int| 4 * i <= j < before.len() ==> under@[j] == before[j],
        decreases count - i,
    {
        let at: usize = 4 * i;
        let bg = Rgba { r: under[at], g: under[at + 1], b: under[at + 2], a: under[at + 3] };
        let fg = Rgba { r: top[at], g: top[at + 1], b: top[at + 2], a: top[at + 3] };
        let out = blend(bg, fg);
        let ghost prior = under@;
        under[at] = out.r;
        under[at + 1] = out.g;
        under[at + 2] = out.b;
        under[at + 3] = out.a;
        assert forall|k: int| 0 <= k < i + 1 implies #[trigger] pixel_in(under@, 4 * k)
            == blend_pixel(pixel_in(before, 4 * k), pixel_in(top@, 4 * k)) by {
            if k < i {
                assert(pixel_in(under@, 4 * k) == pixel_in(prior, 4 * k));
            }
        }
        i += 1;
    }
}

/// Whether scaling between these sizes is within what this machine can
/// address.
pub fn can_scale(w0: u32, h0: u32, w1: u32, h1: u32) -> (yes: bool)
    ensures
        yes == scalable(w0, h0, w1, h1),
{
    let a: u32 = if w0 >= w1 && w0 >= 1 {
        w0
    } else if w1 >= 1 {
        w1
    } else {
        1
    };
    let b: u32 = if h0 >= h1 && h0 >= 1 {
        h0
    } else if h1 >= 1 {
        h1
    } else {
        1
    };
    assert(a as int * b as int <= 0xFFFF_FFFF * 0xFFFF_FFFF) by (nonlinear_arith)
        requires
            0 <= a <= 0xFFFF_FFFF,
            0 <= b <= 0xFFFF_FFFF,
    ;
    let area: u64 = a as u64 * b as u64;
    assert(a == wider(w0, w1) && b == wider(h0, h1));
    assert(16 * wider(w0, w1) * wider(h0, h1) == 16 * (wider(w0, w1) * wider(h0, h1)))
        by (nonlinear_arith);
    area <= (isize::MAX as u64) / 16
}

/// Calls `image::guess_format` on `data` and then
/// `image::load_from_memory_with_format` with the format that it names, and
/// takes the result as RGBA8. Trusted: that whether an image is decoded, and
/// which, depends on the bytes alone.
#[verifier::external_body]
pub(crate) fn decode_image(data: &[u8]) -> (image: Option<Raster>)
    ensures
        match image {
            Some(raster) => decoded_image(data@) == Some(raster.content()),
            None => decoded_image(data@) is None,
        },
{
    let format = image::guess_format(data).ok()?;
    let rgba = image::load_from_memory_with_format(data, format).ok()?.into_rgba8();
    Some(Raster { width: rgba.width(), height: rgba.height(), data: rgba.into_raw() })
}

/// Calls `DynamicImage::resize` on `source`. Trusted: that the result
/// depends on the source, the bounds and the filter alone.
#[verifier::external_body]
pub(crate) fn resize_fit(source: &Raster, width: u32, height: u32, filter: Filter) -> (scaled: Raster)
    requires
        scalable(source.spec_width(), source.spec_height(), width, height),
    ensures
        scaled.content() == fitted_image(source.content(), width, height, filter),
{
    let kind = match filter {
        Filter::Triangle => image::imageops::FilterType::Triangle,
        Filter::Lanczos3 => image::imageops::FilterType::Lanczos3,
    };
    let rgba = image::RgbaImage::from_raw(source.width, source.height, source.data.clone()).unwrap();
    let out = image::DynamicImage::ImageRgba8(rgba).resize(width, height, kind).into_rgba8();
    Raster { width: out.width(), height: out.height(), data: out.into_raw() }
}

/// Calls `imageops::resize` on `source`. Trusted: that the result has
/// exactly the size asked for, and depends on the source, the size and the
/// filter alone.
#[verifier::external_body]
pub(crate) fn resize_exact(source: &Raster, width: u32, height: u32, filter: Filter) -> (scaled: Raster)
    requires
        scalable(source.spec_width(), source.spec_height(), width, height),
    ensures
        scaled.spec_width() == width,
        scaled.spec_height() == height,
        scaled.bytes() == resampled_bytes(source.content(), width, height, filter),
{
    let kind = match filter {
        Filter::Triangle => image::imageops::FilterType::Triangle,
        Filter::Lanczos3 => image::imageops::FilterType::Lanczos3,
    };
    let rgba = image::RgbaImage::from_raw(source.width, source.height, source.data.clone()).unwrap();
    let out = image::imageops::resize(&rgba, width, height, kind);
    Raster { width, height, data: out.into_raw() }
}

/// Calls `imageops::overlay` with `bottom` and `top`. Trusted: that the size
/// of `bottom` stays, and that its bytes afterwards depend on the two images
/// and the place alone.
#[verifier::external_body]
pub(crate) fn overlay(bottom: &mut Raster, top: &Raster, x: i64, y: i64)
    ensures
        final(bottom).spec_width() == old(bottom).spec_width(),
        final(bottom).spec_height() == old(bottom).spec_height(),
        final(bottom).bytes() == overlaid_bytes(old(bottom).content(), top.content(), x, y),
{
    let data = std::mem::take(&mut bottom.data);
    let mut under = image::RgbaImage::from_raw(bottom.width, bottom.height, data).unwrap();
    let over = image::RgbaImage::from_raw(top.width, top.height, top.data.clone()).unwrap();
    image::imageops::overlay(&mut under, &over, x, y);
    bottom.data = under.into_raw();
}

/// The bytes of the rectangle of `source` that is `width` pixels wide and
/// `height` pixels high and has its left upper corner in column `x` of row
/// `y`: its rows, one after the other.
pub open spec fn cropped_bytes(source: ImageView, x: u32, y: u32, width: u32, height: u32) -> Seq<
    u8,
>
    decreases height,
{
    if height == 0 {
        Seq::empty()
    } else {
        let row = (height - 1) as u32;
        let at = offset_of(source.width, x as int, y + row);
        cropped_bytes(source, x, y, width, row) + source.bytes.subrange(at, at + 4 * width)
    }
}

/// The rectangle of `source`, as an image of its own.
pub open spec fn cropped(source: ImageView, x: u32, y: u32, width: u32, height: u32) -> ImageView {
    ImageView { width, height, bytes: cropped_bytes(source, x, y, width, height) }
}

/// Cuts a rectangle out of an image.
pub fn crop(source: &Raster, x: u32, y: u32, width: u32, height: u32) -> (cut: Raster)
    requires
        x + width <= source.spec_width(),
        y + height <= source.spec_height(),
    ensures
        cut.content() == cropped(source.content(), x, y, width, height),
{
    let ghost view = source.content();
    let bytes = source.as_raw();
    let total: usize = bytes.len();
    let mut data: Vec<u8> = Vec::new();
    let mut row: u32 = 0;
    while row < height
        invariant
            row <= height,
            total == bytes@.len(),
            x + width <= source.spec_width(),
            y + height <= source.spec_height(),
            view == source.content(),
            bytes@ == view.bytes,
            bytes@.len() == rgba_len(source.spec_width(), source.spec_height()),
            data@ == cropped_bytes(view, x, y, width, row),
            data@.len() == 4 * width * row,
        decreases height - row,
    {
        proof {
            let w = source.spec_width() as int;
            let h = source.spec_height() as int;
            let r = (y + row) as int;
            assert(r * w + w <= w * h) by (nonlinear_arith)
                requires
                    0 <= r < h,
                    0 <= w,
            ;
            assert(0 <= r * w) by (nonlinear_arith)
                requires
                    0 <= r,
                    0 <= w,
            ;
            assert(4 * width * (row + 1) == 4 * width * row + 4 * width) by (nonlinear_arith);
            assert(w * h * 4 == rgba_len(source.spec_width(), source.spec_height()));
            assert(r * w + x + width <= w * h);
        }
        let start: usize = 4 * ((y + row) as usize * source.width() as usize + x as usize);
        let end: usize = start + 4 * (width as usize);
        let mut i: usize = start;
        let ghost before = data@;
        while i < end
            invariant
                start <= i <= end,
                end <= bytes@.len(),
                data@ == before + bytes@.subrange(start as int, i as int),
            decreases end - i,
        {
            data.push(bytes[i]);
            assert(bytes@.subrange(start as int, i + 1) =~= bytes@.subrange(
                start as int,
                i as int,
            ).push(bytes@[i as int]));
            i += 1;
        }
        row += 1;
    }
    proof {
        assert(4 * width * height == rgba_len(width, height)) by (nonlinear_arith);
    }
    Raster { width, height, data }
}

/// One of the four bytes of a pixel: red, green, blue, alpha.
pub open spec fn channel(p: Rgba, c: int) -> u8 {
    if c == 0 {
        p.r
    } else if c == 1 {
        p.g
    } else if c == 2 {
        p.b
    } else {
        p.a
    }
}

/// The bytes of the image that has, in each place, the pixel that `f` makes
/// of the column, the row and the pixel of `source` there.
pub open spec fn mapped_bytes(source: ImageView, f: spec_fn(int, int, Rgba) -> Rgba) -> Seq<u8> {
    Seq::new(
        source.bytes.len(),
        |i: int|
            {
                let p = i / 4;
                channel(
                    f(
                        p % (source.width as int),
                        p / (source.width as int),
                        pixel_in(source.bytes, 4 * p),
                    ),
                    i % 4,
                )
            },
    )
}

/// An image is known by its pixels: bytes that hold, for each place of an
/// image, the pixel that `f` makes of the pixel of `source` there are the
/// bytes of the mapped image.
pub proof fn lemma_mapped_pixel_by_pixel(
    source: ImageView,
    out: Seq<u8>,
    f: spec_fn(int, int, Rgba) -> Rgba,
)
    requires
        source.bytes.len() == rgba_len(source.width, source.height),
        out.len() == source.bytes.len(),
        forall|x: int, y: int|
            0 <= x < source.width && 0 <= y < source.height ==> #[trigger] pixel_in(
                out,
                offset_of(source.width, x, y),
            ) == f(x, y, pixel_in(source.bytes, offset_of(source.width, x, y))),
    ensures
        out =~= mapped_bytes(source, f),
{
    let w = source.width as int;
    let h = source.height as int;
    assert forall|i: int| 0 <= i < out.len() implies out[i] == mapped_bytes(source, f)[i] by {
        let p = i / 4;
        let c = i % 4;
        assert(w > 0 && h > 0) by (nonlinear_arith)
            requires
                0 <= i < w * h * 4,
                0 <= w,
                0 <= h,
        ;
        let x = p % w;
        let y = p / w;
        vstd::arithmetic::div_mod::lemma_fundamental_div_mod(p, w);
        assert(0 <= x < w);
        assert(p < w * h);
        assert(0 <= y < h) by (nonlinear_arith)
            requires
                p == w * y + x,
                0 <= x < w,
                0 <= p < w * h,
                w > 0,
        ;
        assert(offset_of(source.width, x, y) == 4 * p) by (nonlinear_arith)
            requires
                p == w * y + x,
                w == source.width,
        ;
        let made = pixel_in(out, offset_of(source.width, x, y));
        assert(out[i] == channel(made, c));
    }
}

impl Raster {
    /// An image of the given size with every pixel of one colour; `None`
    /// where a buffer of that size cannot be allocated on this machine.
    pub fn filled(width: u32, height: u32, colour: Rgba) -> (made: Option<Raster>)
        ensures
            made is Some <==> rgba_len(width, height) <= isize::MAX,
            made matches Some(image) ==> {
                &&& image.spec_width() == width
                &&& image.spec_height() == height
                &&& image.bytes() == filled_bytes(width, height, colour)
            },
    {
        let len: usize = match rgba_buffer_len(width, height) {
            Some(len) => len,
            None => {
                return None;
            },
        };
        if len > isize::MAX as usize {
            return None;
        }
        let mut data: Vec<u8> = Vec::new();
        let mut i: usize = 0;
        while i < len
            invariant
                i <= len,
                i % 4 == 0,
                len == rgba_len(width, height),
                data@.len() == i,
                forall|k: int| 0 <= k < i ==> data@[k] == channel(colour, k % 4),
            decreases len - i,
        {
            data.push(colour.r);
            data.push(colour.g);
            data.push(colour.b);
            data.push(colour.a);
            i += 4;
        }
        assert(data@ =~= filled_bytes(width, height, colour));
        Some(Raster { width, height, data })
    }
}

/// The bytes of an image of the given size with every pixel of one colour.
pub open spec fn filled_bytes(width: u32, height: u32, colour: Rgba) -> Seq<u8> {
    Seq::new(rgba_len(width, height) as nat, |i: int| channel(colour, i % 4))
}

/// The encoded picture `picture` in the middle of a transparent image of
/// `width` by `height` pixels, scaled to fit into it; `None` where the
/// picture does not decode or an image of that size cannot be made on this
/// machine.
pub open spec fn centred_of(picture: Seq<u8>, width: u32, height: u32, filter: Filter) -> Option<
    Seq<u8>,
> {
    match decoded_image(picture) {
        Some(image) => {
            let scaled = fitted_image(image, width, height, filter);
            if scalable(image.width, image.height, width, height) && rgba_len(width, height)
                <= isize::MAX && scaled.width <= width && scaled.height <= height {
                Some(
                    overlaid_bytes(
                        blank(width, height),
                        scaled,
                        ((width - scaled.width) / 2) as i64,
                        ((height - scaled.height) / 2) as i64,
                    ),
                )
            } else {
                None
            }
        },
        None => None,
    }
}

/// Decodes a picture, scales it to fit into `width` by `height` pixels and
/// puts it into the middle of a transparent image of that size. The result
/// has four bytes for each pixel of the size asked for.
pub fn centre_picture(picture: &[u8], width: u32, height: u32, filter: Filter) -> (pixels: Option<
    Vec<u8>,
>)
    ensures
        crate::model::bytes_view(pixels) == centred_of(picture@, width, height, filter),
        pixels matches Some(p) ==> p@.len() == rgba_len(width, height),
{
    let image = match decode_image(picture) {
        Some(image) => image,
        None => {
            return None;
        },
    };
    if !can_scale(image.width(), image.height(), width, height) {
        return None;
    }
    let mut canvas = match Raster::new(width, height) {
        Some(canvas) => canvas,
        None => {
            return None;
        },
    };
    let resized = resize_fit(&image, width, height, filter);
    if resized.width() > width || resized.height() > height {
        return None;
    }
    let x: u32 = (width - resized.width()) / 2;
    let y: u32 = (height - resized.height()) / 2;
    assert(canvas.content() == blank(width, height));
    overlay(&mut canvas, &resized, x as i64, y as i64);
    Some(canvas.into_raw())
}

} // verus!
