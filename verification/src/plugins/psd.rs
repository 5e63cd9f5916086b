//! Photoshop documents.

use vstd::prelude::*;

use super::ThumbnailGenerator;
use crate::bitmap::{
    can_scale, clear_pixel, lemma_mapped_pixel_by_pixel, mapped_bytes, resampled_bytes,
    resize_exact, scalable, Filter, ImageView, Raster, Rgba,
};
use crate::model::rgba_len;
use crate::strutil::{starts_with, str_eq};

verus! {

/// The signature at the start of a Photoshop document: `8BPS`.
pub open spec fn psd_magic() -> Seq<u8> {
    seq![0x38u8, 0x42u8, 0x50u8, 0x53u8]
}

pub struct PsdGenerator;

impl ThumbnailGenerator for PsdGenerator {
    /// The extension is `psd`, or the file starts with the PSD signature.
    open spec fn accepts(&self, header: Seq<u8>, extension: Seq<char>) -> bool {
        extension == "psd"@ || psd_magic().is_prefix_of(header)
    }

    open spec fn recognizes(&self, header: Seq<u8>) -> bool {
        psd_magic().is_prefix_of(header)
    }

    open spec fn label(&self) -> Seq<char> {
        "PSD Renderer"@
    }

    fn name(&self) -> (n: &str) {
        "PSD Renderer"
    }

    fn validate(&self, header: &[u8], extension: &str) -> (ok: bool) {
        let magic: [u8; 4] = [0x38, 0x42, 0x50, 0x53];
        assert(magic@ =~= psd_magic());
        str_eq(extension, "psd") || starts_with(header, magic.as_slice())
    }

    fn sniff(&self, header: &[u8]) -> (yes: bool) {
        let magic: [u8; 4] = [0x38, 0x42, 0x50, 0x53];
        assert(magic@ =~= psd_magic());
        starts_with(header, magic.as_slice())
    }
}

/// The colour of the back of the folded corner.
pub open spec fn fold_colour() -> Rgba {
    Rgba { r: 240, g: 240, b: 240, a: 255 }
}

/// The colour of the shadow along the crease.
pub open spec fn shadow_colour() -> Rgba {
    Rgba { r: 0, g: 0, b: 0, a: 40 }
}

/// The pixel in column `x` of row `y` of an image `width` pixels wide after
/// its right upper corner was folded over, `fold` pixels along each side;
/// `was` is the pixel before. Outside the square of the fold nothing
/// changes. In it, what lies on or right of the diagonal is cut away, the
/// pixel left of the diagonal is shadow, and the rest shows the back of the
/// flap.
pub open spec fn folded_pixel(width: u32, fold: u32, x: int, y: int, was: Rgba) -> Rgba {
    let dx = x - (width - fold);
    if y < fold && dx >= 0 {
        if dx >= y {
            clear_pixel()
        } else if dx == y - 1 {
            shadow_colour()
        } else {
            fold_colour()
        }
    } else {
        was
    }
}

/// The size of the fold on an image of `width` by `height` pixels: the size
/// asked for, but not more than the shorter side of the image.
pub open spec fn fold_within(width: u32, height: u32, fold_size: u32) -> u32 {
    if fold_size <= width && fold_size <= height {
        fold_size
    } else if width <= height {
        width
    } else {
        height
    }
}

/// What the fold makes of each pixel of an image `width` pixels wide.
pub open spec fn fold_map(width: u32, fold: u32) -> spec_fn(int, int, Rgba) -> Rgba {
    |x: int, y: int, was: Rgba| folded_pixel(width, fold, x, y, was)
}

/// Folds the right upper corner of the image over, `size` pixels along each
/// side, so that it looks like a sheet with a dog-ear. A fold that is larger
/// than the image is cut to its shorter side.
pub fn apply_corner_fold(img: &mut Raster, size: u32)
    ensures
        final(img).spec_width() == old(img).spec_width(),
        final(img).spec_height() == old(img).spec_height(),
        forall|x: int, y: int|
            0 <= x < old(img).spec_width() && 0 <= y < old(img).spec_height()
                ==> #[trigger] final(img).pixel(x, y) == folded_pixel(
                old(img).spec_width(),
                fold_within(old(img).spec_width(), old(img).spec_height(), size),
                x,
                y,
                old(img).pixel(x, y),
            ),
        final(img).bytes() == mapped_bytes(
            old(img).content(),
            fold_map(
                old(img).spec_width(),
                fold_within(old(img).spec_width(), old(img).spec_height(), size),
            ),
        ),
{
    let w: u32 = img.width();
    let h: u32 = img.height();
    let fold_size: u32 = if size <= w && size <= h {
        size
    } else if w <= h {
        w
    } else {
        h
    };
    let total: usize = img.as_raw().len();
    let left: u32 = w - fold_size;
    let ghost before = *img;
    let mut y: u32 = 0;
    while y < fold_size
        invariant
            y <= fold_size,
            fold_size <= w,
            fold_size <= h,
            left == w - fold_size,
            img.spec_width() == w,
            img.spec_height() == h,
            before.spec_width() == w,
            before.spec_height() == h,
            forall|px: int, py: int|
                0 <= px < w && 0 <= py < h ==> #[trigger] img.pixel(px, py) == (if py < y {
                    folded_pixel(w, fold_size, px, py, before.pixel(px, py))
                } else {
                    before.pixel(px, py)
                }),
        decreases fold_size - y,
    {
        let mut x: u32 = left;
        while x < w
            invariant
                left <= x <= w,
                y < fold_size,
                fold_size <= w,
                fold_size <= h,
                left == w - fold_size,
                img.spec_width() == w,
                img.spec_height() == h,
                before.spec_width() == w,
                before.spec_height() == h,
                forall|px: int, py: int|
                    0 <= px < w && 0 <= py < h ==> #[trigger] img.pixel(px, py) == (if py < y || (
                    py == y && px < x) {
                        folded_pixel(w, fold_size, px, py, before.pixel(px, py))
                    } else {
                        before.pixel(px, py)
                    }),
            decreases w - x,
        {
            let dx: u32 = x - left;
            let colour = if dx >= y {
                Rgba { r: 0, g: 0, b: 0, a: 0 }
            } else if dx == y - 1 {
                Rgba { r: 0, g: 0, b: 0, a: 40 }
            } else {
                Rgba { r: 240, g: 240, b: 240, a: 255 }
            };
            img.put_pixel(x, y, colour);
            x += 1;
        }
        y += 1;
    }
    let after: usize = img.as_raw().len();
    proof {
        assert forall|px: int, py: int| 0 <= px < w && 0 <= py < h implies #[trigger] crate::bitmap::pixel_in(
            img.bytes(),
            crate::bitmap::offset_of(w, px, py),
        ) == fold_map(w, fold_size)(
            px,
            py,
            crate::bitmap::pixel_in(before.bytes(), crate::bitmap::offset_of(w, px, py)),
        ) by {
            assert(img.pixel(px, py) == folded_pixel(w, fold_size, px, py, before.pixel(px, py)));
        }
        lemma_mapped_pixel_by_pixel(before.content(), img.bytes(), fold_map(w, fold_size));
    }
}

/// The bytes of the thumbnail of a Photoshop document whose flattened image
/// is `source`: the image scaled to exactly `width` by `height`, its right
/// upper corner folded over.
pub open spec fn psd_thumbnail(source: ImageView, width: u32, height: u32, fold_size: u32) -> Seq<
    u8,
> {
    mapped_bytes(
        ImageView {
            width,
            height,
            bytes: resampled_bytes(source, width, height, Filter::Triangle),
        },
        fold_map(width, fold_within(width, height, fold_size)),
    )
}

impl PsdGenerator {
    /// Makes the thumbnail of a Photoshop document from its flattened image:
    /// `raw_rgba` holds the image, `psd_width` by `psd_height` pixels. The
    /// image is scaled to exactly `width` by `height` and its right upper
    /// corner is folded over, `fold_size` pixels along each side, or as many
    /// as the shorter side of the thumbnail has. The result has four bytes
    /// for each pixel of the size asked for.
    ///
    /// Fails where `raw_rgba` is not an image of the size given, and where
    /// an image of one of the two sizes cannot be made on this machine.
    pub fn generate(
        &self,
        psd_width: u32,
        psd_height: u32,
        raw_rgba: Vec<u8>,
        width: u32,
        height: u32,
        fold_size: u32,
    ) -> (out: Result<Raster, String>)
        ensures
            out is Ok <==> raw_rgba@.len() == rgba_len(psd_width, psd_height) && scalable(
                psd_width,
                psd_height,
                width,
                height,
            ),
            out matches Ok(image) ==> {
                &&& image.spec_width() == width
                &&& image.spec_height() == height
                &&& image.bytes().len() == rgba_len(width, height)
                &&& image.bytes() == psd_thumbnail(
                    ImageView { width: psd_width, height: psd_height, bytes: raw_rgba@ },
                    width,
                    height,
                    fold_size,
                )
            },
            out matches Err(message) ==> message@ == if raw_rgba@.len() == rgba_len(
                psd_width,
                psd_height,
            ) {
                "Image too large"@
            } else {
                "Failed to create image buffer from PSD data"@
            },
    {
        let source = match Raster::from_raw(psd_width, psd_height, raw_rgba) {
            Some(source) => source,
            None => {
                return Err("Failed to create image buffer from PSD data".to_owned());
            },
        };
        if !can_scale(psd_width, psd_height, width, height) {
            return Err("Image too large".to_owned());
        }
        let mut resized = resize_exact(&source, width, height, Filter::Triangle);
        apply_corner_fold(&mut resized, fold_size);
        let len: usize = resized.as_raw().len();
        Ok(resized)
    }
}

} // verus!
