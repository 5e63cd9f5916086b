//! PDF documents.

use vstd::prelude::*;

use super::ThumbnailGenerator;
use crate::bitmap::{
    blank, can_scale, clear_pixel, filled_bytes, fitted_image, lemma_mapped_pixel_by_pixel,
    mapped_bytes, overlaid_bytes, overlay, resize_fit, scalable, Filter, ImageView, Raster, Rgba,
};
use crate::model::rgba_len;
use vstd::string::*;
use crate::strutil::{eq_ignore_ascii_case, same_ignoring_ascii_case, starts_with};

verus! {

/// The bytes `%PDF`, with which a PDF file starts.
pub open spec fn pdf_magic() -> Seq<u8> {
    seq![0x25u8, 0x50u8, 0x44u8, 0x46u8]
}

pub struct PdfGenerator;

impl ThumbnailGenerator for PdfGenerator {
    /// A file that starts with the PDF signature is taken unless its
    /// extension is `ai`: Illustrator files carry that signature too and are
    /// left to another generator. Without the signature the extension `pdf`
    /// decides. Both extensions are compared in any case.
    open spec fn accepts(&self, header: Seq<u8>, extension: Seq<char>) -> bool {
        if pdf_magic().is_prefix_of(header) {
            !same_ignoring_ascii_case(extension, "ai"@)
        } else {
            same_ignoring_ascii_case(extension, "pdf"@)
        }
    }

    open spec fn recognizes(&self, header: Seq<u8>) -> bool {
        pdf_magic().is_prefix_of(header)
    }

    open spec fn label(&self) -> Seq<char> {
        "PDF Renderer"@
    }

    fn name(&self) -> (n: &str) {
        "PDF Renderer"
    }

    fn validate(&self, header: &[u8], extension: &str) -> (ok: bool) {
        let magic: [u8; 4] = [0x25, 0x50, 0x44, 0x46];
        assert(magic@ =~= pdf_magic());
        if starts_with(header, magic.as_slice()) {
            !eq_ignore_ascii_case(extension, "ai")
        } else {
            eq_ignore_ascii_case(extension, "pdf")
        }
    }

    fn sniff(&self, header: &[u8]) -> (yes: bool) {
        let magic: [u8; 4] = [0x25, 0x50, 0x44, 0x46];
        assert(magic@ =~= pdf_magic());
        starts_with(header, magic.as_slice())
    }
}

/// The column at which the picture of the folded corner, `fold_w` pixels
/// wide, begins on a page that is `page_w` pixels wide: it ends with the
/// page's right edge, and begins at the left edge where it is wider than
/// the page.
pub open spec fn fold_left(page_w: u32, fold_w: u32) -> int {
    if page_w >= fold_w {
        page_w - fold_w
    } else {
        0
    }
}

/// Whether the pixel in column `x` of row `y` of a page lies under the
/// folded corner and is cut away: it lies in the rectangle of the fold's
/// picture, above the diagonal from its left upper to its right lower
/// corner.
pub open spec fn is_cut_away(page_w: u32, fold_w: u32, fold_h: u32, x: int, y: int) -> bool {
    let fx = x - fold_left(page_w, fold_w);
    0 <= fx < fold_w && 0 <= y < fold_h && y * fold_w < fx * fold_h
}

/// What the cut makes of each pixel of a page `page_w` pixels wide.
pub open spec fn cut_map(page_w: u32, fold_w: u32, fold_h: u32) -> spec_fn(int, int, Rgba) -> Rgba {
    |x: int, y: int, was: Rgba|
        if is_cut_away(page_w, fold_w, fold_h, x, y) {
            clear_pixel()
        } else {
            was
        }
}

/// Cuts from the framed first page what the folded corner covers, so that
/// the page behind shows through. `fold_w` and `fold_h` give the size of
/// the corner's picture.
pub fn cut_folded_corner(page: &mut Raster, fold_w: u32, fold_h: u32)
    ensures
        final(page).spec_width() == old(page).spec_width(),
        final(page).spec_height() == old(page).spec_height(),
        forall|x: int, y: int|
            0 <= x < old(page).spec_width() && 0 <= y < old(page).spec_height()
                ==> #[trigger] final(page).pixel(x, y) == (if is_cut_away(
                old(page).spec_width(),
                fold_w,
                fold_h,
                x,
                y,
            ) {
                clear_pixel()
            } else {
                old(page).pixel(x, y)
            }),
        final(page).bytes() == mapped_bytes(
            old(page).content(),
            cut_map(old(page).spec_width(), fold_w, fold_h),
        ),
{
    let w: u32 = page.width();
    let h: u32 = page.height();
    let total: usize = page.as_raw().len();
    let left: u32 = if w >= fold_w {
        w - fold_w
    } else {
        0
    };
    let rows: u32 = if fold_h < h {
        fold_h
    } else {
        h
    };
    let ghost before = *page;
    let mut y: u32 = 0;
    while y < rows
        invariant
            y <= rows,
            rows <= h,
            rows <= fold_h,
            rows == h || rows == fold_h,
            left == fold_left(w, fold_w),
            left <= w,
            page.spec_width() == w,
            page.spec_height() == h,
            before.spec_width() == w,
            before.spec_height() == h,
            forall|px: int, py: int|
                0 <= px < w && 0 <= py < h ==> #[trigger] page.pixel(px, py) == (if py < y
                    && is_cut_away(w, fold_w, fold_h, px, py) {
                    clear_pixel()
                } else {
                    before.pixel(px, py)
                }),
        decreases rows - y,
    {
        let mut x: u32 = left;
        while x < w
            invariant
                left <= x <= w,
                y < rows,
                rows <= h,
                rows <= fold_h,
                left == fold_left(w, fold_w),
                page.spec_width() == w,
                page.spec_height() == h,
                before.spec_width() == w,
                before.spec_height() == h,
                forall|px: int, py: int|
                    0 <= px < w && 0 <= py < h ==> #[trigger] page.pixel(px, py) == (if (py < y
                        || (py == y && px < x)) && is_cut_away(w, fold_w, fold_h, px, py) {
                        clear_pixel()
                    } else {
                        before.pixel(px, py)
                    }),
            decreases w - x,
        {
            let fx: u64 = (x - left) as u64;
            assert(y as int * fold_w as int <= 0xFFFF_FFFF * 0xFFFF_FFFF) by (nonlinear_arith)
                requires
                    0 <= y <= 0xFFFF_FFFF,
                    0 <= fold_w <= 0xFFFF_FFFF,
            ;
            assert(fx as int * fold_h as int <= 0xFFFF_FFFF * 0xFFFF_FFFF) by (nonlinear_arith)
                requires
                    0 <= fx <= 0xFFFF_FFFF,
                    0 <= fold_h <= 0xFFFF_FFFF,
            ;
            if (y as u64) * (fold_w as u64) < fx * (fold_h as u64) {
                page.put_pixel(x, y, Rgba { r: 0, g: 0, b: 0, a: 0 });
            }
            x += 1;
        }
        y += 1;
    }
    let after: usize = page.as_raw().len();
    proof {
        assert forall|px: int, py: int| 0 <= px < w && 0 <= py < h implies #[trigger] crate::bitmap::pixel_in(
            page.bytes(),
            crate::bitmap::offset_of(w, px, py),
        ) == cut_map(w, fold_w, fold_h)(
            px,
            py,
            crate::bitmap::pixel_in(before.bytes(), crate::bitmap::offset_of(w, px, py)),
        ) by {
            assert(page.pixel(px, py) == (if is_cut_away(w, fold_w, fold_h, px, py) {
                clear_pixel()
            } else {
                before.pixel(px, py)
            }));
        }
        lemma_mapped_pixel_by_pixel(before.content(), page.bytes(), cut_map(w, fold_w, fold_h));
    }
}

/// The width of the border that is drawn round a page, in pixels.
pub const BORDER_SIZE: u32 = 3;

/// The colour of the border round a page.
pub open spec fn border_colour() -> Rgba {
    Rgba { r: 121, g: 119, b: 116, a: 255 }
}

/// What is left of a side of `whole` pixels between two margins of
/// `margin` pixels.
pub open spec fn inside(whole: u32, margin: u32) -> u32 {
    if whole >= 2 * margin {
        (whole - 2 * margin) as u32
    } else {
        0
    }
}

/// The picture of a rendered page, scaled to fit into `max_w` by `max_h`
/// pixels, with a border round it.
pub open spec fn framed_page(page: ImageView, max_w: u32, max_h: u32) -> ImageView {
    let cover = fitted_image(page, max_w, max_h, Filter::Triangle);
    let w = (cover.width + 2 * BORDER_SIZE) as u32;
    let h = (cover.height + 2 * BORDER_SIZE) as u32;
    ImageView {
        width: w,
        height: h,
        bytes: overlaid_bytes(
            ImageView { width: w, height: h, bytes: filled_bytes(w, h, border_colour()) },
            cover,
            BORDER_SIZE as i64,
            BORDER_SIZE as i64,
        ),
    }
}

/// Whether the framed page can be made on this machine and fits into a
/// thumbnail of `width` by `height` pixels.
pub open spec fn page_fits(page: ImageView, width: u32, height: u32, margin: u32) -> bool {
    let max_w = inside(width, margin);
    let max_h = inside(height, margin);
    let cover = fitted_image(page, max_w, max_h, Filter::Triangle);
    &&& scalable(page.width, page.height, max_w, max_h)
    &&& cover.width + 2 * BORDER_SIZE <= width
    &&& cover.height + 2 * BORDER_SIZE <= height
    &&& rgba_len((cover.width + 2 * BORDER_SIZE) as u32, (cover.height + 2 * BORDER_SIZE) as u32)
        <= isize::MAX
}

/// `top` laid over `canvas` so that it stands in its middle.
pub open spec fn centred_over(canvas: ImageView, top: ImageView) -> ImageView {
    ImageView {
        width: canvas.width,
        height: canvas.height,
        bytes: overlaid_bytes(
            canvas,
            top,
            ((canvas.width - top.width) / 2) as i64,
            ((canvas.height - top.height) / 2) as i64,
        ),
    }
}

/// The thumbnail of a document: its second page, if it has one that fits,
/// in the middle of a transparent image; over it the first page, cut where
/// the folded corner lies; over that the picture of the folded corner, its
/// right upper corner on that of the first page.
pub open spec fn pdf_thumbnail(
    front: ImageView,
    back: Option<ImageView>,
    width: u32,
    height: u32,
    margin: u32,
    fold: Option<ImageView>,
) -> Seq<u8> {
    let max_w = inside(width, margin);
    let max_h = inside(height, margin);
    let ground = blank(width, height);
    let behind = match back {
        Some(page) => if page_fits(page, width, height, margin) {
            centred_over(ground, framed_page(page, max_w, max_h))
        } else {
            ground
        },
        None => ground,
    };
    let framed = framed_page(front, max_w, max_h);
    let x = (width - framed.width) / 2;
    let y = (height - framed.height) / 2;
    match fold {
        Some(corner) => {
            let cut = ImageView {
                width: framed.width,
                height: framed.height,
                bytes: mapped_bytes(framed, cut_map(framed.width, corner.width, corner.height)),
            };
            let with_front = centred_over(behind, cut);
            let fold_x = if x + framed.width >= corner.width {
                x + framed.width - corner.width
            } else {
                0
            };
            overlaid_bytes(with_front, corner, fold_x as i64, y as i64)
        },
        None => centred_over(behind, framed).bytes,
    }
}

/// Scales the picture of a page and puts a border round it; `None` where
/// the result does not fit into the thumbnail or cannot be made.
fn frame_page(page: &Raster, width: u32, height: u32, margin: u32) -> (framed: Option<Raster>)
    ensures
        framed is Some <==> page_fits(page.content(), width, height, margin),
        framed matches Some(image) ==> image.content() == framed_page(
            page.content(),
            inside(width, margin),
            inside(height, margin),
        ),
{
    let max_w: u32 = if (width as u64) >= 2 * (margin as u64) {
        width - 2 * margin
    } else {
        0
    };
    let max_h: u32 = if (height as u64) >= 2 * (margin as u64) {
        height - 2 * margin
    } else {
        0
    };
    if !can_scale(page.width(), page.height(), max_w, max_h) {
        return None;
    }
    let cover = resize_fit(page, max_w, max_h, Filter::Triangle);
    if cover.width() as u64 + 6 > width as u64 || cover.height() as u64 + 6 > height as u64 {
        return None;
    }
    let frame_w: u32 = cover.width() + 2 * BORDER_SIZE;
    let frame_h: u32 = cover.height() + 2 * BORDER_SIZE;
    let mut framed = match Raster::filled(
        frame_w,
        frame_h,
        Rgba { r: 121, g: 119, b: 116, a: 255 },
    ) {
        Some(framed) => framed,
        None => {
            return None;
        },
    };
    overlay(&mut framed, &cover, BORDER_SIZE as i64, BORDER_SIZE as i64);
    Some(framed)
}

impl PdfGenerator {
    /// Puts the thumbnail of a document together from the pictures of its
    /// pages: `front` is the rendered first page, `back` the second where
    /// the document has one. `margin` is the room that is left round the
    /// pages, `fold` the picture of the folded corner in the size in which
    /// it is drawn, or `None` where there is none.
    ///
    /// Fails where the first page does not fit into the thumbnail and where
    /// an image cannot be made on this machine.
    pub fn render_pdf(
        front: &Raster,
        back: Option<&Raster>,
        width: u32,
        height: u32,
        margin: u32,
        fold: Option<&Raster>,
    ) -> (out: Result<Vec<u8>, String>)
        ensures
            out is Ok <==> rgba_len(width, height) <= isize::MAX && page_fits(
                front.content(),
                width,
                height,
                margin,
            ),
            out matches Ok(pixels) ==> pixels@ == pdf_thumbnail(
                front.content(),
                match back {
                    Some(page) => Some(page.content()),
                    None => None,
                },
                width,
                height,
                margin,
                match fold {
                    Some(corner) => Some(corner.content()),
                    None => None,
                },
            ) && pixels@.len() == rgba_len(width, height),
            out matches Err(message) ==> message@ == "The page does not fit the thumbnail"@,
    {
        let mut canvas = match Raster::new(width, height) {
            Some(canvas) => canvas,
            None => {
                return Err("The page does not fit the thumbnail".to_owned());
            },
        };
        if let Some(page) = back {
            if let Some(framed_back) = frame_page(page, width, height, margin) {
                let cx: u32 = (width - framed_back.width()) / 2;
                let cy: u32 = (height - framed_back.height()) / 2;
                overlay(&mut canvas, &framed_back, cx as i64, cy as i64);
            }
        }
        let mut framed_front = match frame_page(front, width, height, margin) {
            Some(framed) => framed,
            None => {
                return Err("The page does not fit the thumbnail".to_owned());
            },
        };
        let x: u32 = (width - framed_front.width()) / 2;
        let y: u32 = (height - framed_front.height()) / 2;
        match fold {
            Some(corner) => {
                cut_folded_corner(&mut framed_front, corner.width(), corner.height());
                overlay(&mut canvas, &framed_front, x as i64, y as i64);
                let right: u64 = x as u64 + framed_front.width() as u64;
                let fold_x: u64 = if right >= corner.width() as u64 {
                    right - corner.width() as u64
                } else {
                    0
                };
                overlay(&mut canvas, corner, fold_x as i64, y as i64);
            },
            None => {
                overlay(&mut canvas, &framed_front, x as i64, y as i64);
            },
        }
        Ok(canvas.into_raw())
    }
}

} // verus!
