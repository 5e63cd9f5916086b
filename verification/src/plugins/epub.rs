//! EPUB books.

use vstd::prelude::*;
use vstd::string::*;

use super::ThumbnailGenerator;
use crate::archive::{
    archive_len, coherent, content_named, directory_of, entries_of, entry_by_name, entry_bytes,
    entry_info, largest_where, open_archive, opens_by_name, EntryView, Found,
};
use crate::bitmap::{
    blank, can_scale, crop, cropped, fitted_image, overlaid_bytes, overlay, resampled_bytes,
    resize_exact, resize_fit, scalable, Filter, ImageView, Raster,
};
use crate::model::rgba_len;
use crate::strutil::{
    chars_contain, chars_end_with, contains_run, eq_ignore_ascii_case, lowercase,
    same_ignoring_ascii_case, to_chars, to_lowercase,
};

verus! {

pub struct EpubGenerator;

impl ThumbnailGenerator for EpubGenerator {
    /// The extension is `epub` in any case; the content is not looked at.
    open spec fn accepts(&self, header: Seq<u8>, extension: Seq<char>) -> bool {
        same_ignoring_ascii_case(extension, "epub"@)
    }

    open spec fn recognizes(&self, header: Seq<u8>) -> bool {
        false
    }

    open spec fn label(&self) -> Seq<char> {
        "EPUB Renderer"@
    }

    fn name(&self) -> (n: &str) {
        "EPUB Renderer"
    }

    fn validate(&self, header: &[u8], extension: &str) -> (ok: bool) {
        eq_ignore_ascii_case(extension, "epub")
    }

    fn sniff(&self, header: &[u8]) -> (yes: bool) {
        false
    }
}

/// Why a book gave no cover.
#[derive(Debug, Clone, Copy, PartialEq, Eq, Structural)]
pub enum CoverError {
    /// The book is no ZIP archive.
    NotAnArchive,
    /// The entry that holds the cover could not be read to its end.
    Unreadable,
    /// The book holds no entry that could be its cover.
    NotFound,
}

impl CoverError {
    /// The error in words.
    pub open spec fn text(self) -> Seq<char> {
        match self {
            CoverError::NotAnArchive => "Failed to open EPUB zip"@,
            CoverError::Unreadable => "Failed to read cover image"@,
            CoverError::NotFound => "No cover image found in EPUB"@,
        }
    }

    /// The error in words.
    pub fn message(self) -> (words: String)
        ensures
            words@ == self.text(),
    {
        match self {
            CoverError::NotAnArchive => "Failed to open EPUB zip".to_owned(),
            CoverError::Unreadable => "Failed to read cover image".to_owned(),
            CoverError::NotFound => "No cover image found in EPUB".to_owned(),
        }
    }
}

/// The names under which books commonly keep their cover, in the order in
/// which they are tried.
pub open spec fn common_cover_names() -> Seq<Seq<char>> {
    seq![
        "cover.jpg"@,
        "cover.jpeg"@,
        "cover.png"@,
        "OEBPS/images/cover.jpg"@,
        "OEBPS/images/cover.png"@,
        "OEBPS/cover.jpg"@,
    ]
}

/// The place, from `from` on, of the first common cover name under which
/// the directory has an entry that opens.
pub open spec fn first_common_cover(entries: Seq<EntryView>, from: int) -> Option<int>
    decreases 6 - from,
{
    if from < 0 || from >= 6 {
        None
    } else if opens_by_name(entries, common_cover_names()[from]) {
        Some(from)
    } else {
        first_common_cover(entries, from + 1)
    }
}

/// Whether a name in lower case is that of a picture that may be a cover: a
/// JPEG or PNG file whose name does not hold `thumb`.
pub open spec fn names_cover(lower: Seq<char>) -> bool {
    &&& ".jpg"@.is_suffix_of(lower) || ".jpeg"@.is_suffix_of(lower) || ".png"@.is_suffix_of(lower)
    &&& !contains_run(lower, "thumb"@)
}

/// An entry that may be the cover.
pub open spec fn is_cover_candidate(entry: EntryView) -> bool {
    entry.opens && names_cover(lowercase(entry.name))
}

pub open spec fn cover_candidates() -> spec_fn(EntryView) -> bool {
    |entry: EntryView| is_cover_candidate(entry)
}

/// The cover of a book with the given directory: the entry under the first
/// common cover name that opens, else the largest picture that is no
/// thumbnail.
pub open spec fn cover_of(entries: Seq<EntryView>) -> Result<Seq<u8>, CoverError> {
    match first_common_cover(entries, 0) {
        Some(k) => match content_named(entries, common_cover_names()[k]) {
            Some(bytes) => Ok(bytes),
            None => Err(CoverError::Unreadable),
        },
        None => match largest_where(entries, cover_candidates()) {
            Some(i) => match entries[i].content {
                Some(bytes) => Ok(bytes),
                None => Err(CoverError::Unreadable),
            },
            None => Err(CoverError::NotFound),
        },
    }
}

/// The views of a cover or the reason why there is none.
pub open spec fn cover_view(cover: Result<Vec<u8>, CoverError>) -> Result<Seq<u8>, CoverError> {
    match cover {
        Ok(bytes) => Ok(bytes@),
        Err(e) => Err(e),
    }
}

/// The common cover name at place `k`.
fn common_cover_name(k: usize) -> (name: &'static str)
    requires
        k < 6,
    ensures
        name@ == common_cover_names()[k as int],
{
    if k == 0 {
        "cover.jpg"
    } else if k == 1 {
        "cover.jpeg"
    } else if k == 2 {
        "cover.png"
    } else if k == 3 {
        "OEBPS/images/cover.jpg"
    } else if k == 4 {
        "OEBPS/images/cover.png"
    } else {
        "OEBPS/cover.jpg"
    }
}

/// Whether an entry of this name may be the cover.
fn may_be_cover(name: &str) -> (yes: bool)
    ensures
        yes == names_cover(lowercase(name@)),
{
    let lower = to_lowercase(name);
    let chars = to_chars(lower.as_str());
    let jpg = to_chars(".jpg");
    let jpeg = to_chars(".jpeg");
    let png = to_chars(".png");
    let thumb = to_chars("thumb");
    let text = chars.as_slice();
    (chars_end_with(text, jpg.as_slice()) || chars_end_with(text, jpeg.as_slice())
        || chars_end_with(text, png.as_slice())) && !chars_contain(text, thumb.as_slice())
}

/// Finds the cover picture in the book `data` and hands out its bytes, still
/// encoded.
pub fn find_cover_image(data: &[u8]) -> (cover: Result<Vec<u8>, CoverError>)
    ensures
        cover_view(cover) == match directory_of(data@) {
            Some(entries) => cover_of(entries),
            None => Err(CoverError::NotAnArchive),
        },
{
    let mut archive = match open_archive(vstd::slice::slice_to_vec(data)) {
        Some(archive) => archive,
        None => {
            return Err(CoverError::NotAnArchive);
        },
    };
    let ghost entries = entries_of(archive);
    let mut k: usize = 0;
    while k < 6
        invariant
            k <= 6,
            entries_of(archive) == entries,
            directory_of(data@) == Some(entries),
            first_common_cover(entries, 0) == first_common_cover(entries, k as int),
        decreases 6 - k,
    {
        let name = common_cover_name(k);
        match entry_by_name(&mut archive, name) {
            Found::Content(bytes) => {
                return Ok(bytes);
            },
            Found::Unreadable => {
                return Err(CoverError::Unreadable);
            },
            Found::Nothing => {},
        }
        k += 1;
    }
    let count: usize = archive_len(&archive);
    let mut largest_size: u64 = 0;
    let mut largest: Option<usize> = None;
    let mut i: usize = 0;
    while i < count
        invariant
            i <= count,
            count == entries.len(),
            entries_of(archive) == entries,
            match largest {
                Some(at) => largest_where(entries.take(i as int), cover_candidates()) == Some(
                    at as int,
                ) && at < i && largest_size == entries[at as int].size,
                None => largest_where(entries.take(i as int), cover_candidates()) is None
                    && largest_size == 0,
            },
        decreases count - i,
    {
        assert(entries.take(i + 1).drop_last() =~= entries.take(i as int));
        assert(forall|j: int| 0 <= j < i ==> entries.take(i + 1)[j] == entries[j]);
        if let Some((name, size)) = entry_info(&mut archive, i) {
            if may_be_cover(name.as_str()) {
                if size > largest_size {
                    largest_size = size;
                    largest = Some(i);
                }
            }
        }
        i += 1;
    }
    assert(entries.take(count as int) =~= entries);
    match largest {
        Some(at) => match entry_bytes(&mut archive, at) {
            Some(bytes) => Ok(bytes),
            None => Err(CoverError::Unreadable),
        },
        None => Err(CoverError::NotFound),
    }
}

/// The widths of the four borders of a frame.
#[derive(Debug, Clone, Copy, PartialEq, Eq, Structural)]
pub struct Borders {
    pub left: u32,
    pub right: u32,
    pub top: u32,
    pub bottom: u32,
}

/// A rectangle of the frame's picture and the rectangle of the result that
/// it is stretched to.
#[derive(Debug, Clone, Copy, PartialEq, Eq, Structural)]
pub struct Chunk {
    pub sx: u32,
    pub sy: u32,
    pub sw: u32,
    pub sh: u32,
    pub tx: u32,
    pub ty: u32,
    pub tw: u32,
    pub th: u32,
}

/// What is left of a side between two borders; nothing where the borders
/// take all of it.
pub open spec fn between(whole: u32, first: u32, second: u32) -> u32 {
    if whole >= first + second {
        (whole - first - second) as u32
    } else {
        0
    }
}

/// The nine parts of a frame: its four corners, which keep their place, its
/// four edges, which are stretched along their side, and its middle, which
/// is stretched both ways. They are drawn row by row, from left to right.
pub open spec fn nine_chunks(
    src_w: u32,
    src_h: u32,
    target_w: u32,
    target_h: u32,
    s: Borders,
    t: Borders,
) -> Seq<Chunk> {
    let sc_w = between(src_w, s.left, s.right);
    let sc_h = between(src_h, s.top, s.bottom);
    let tc_w = between(target_w, t.left, t.right);
    let tc_h = between(target_h, t.top, t.bottom);
    let s_right = (src_w - s.right) as u32;
    let s_bottom = (src_h - s.bottom) as u32;
    let t_right = (target_w - t.right) as u32;
    let t_bottom = (target_h - t.bottom) as u32;
    seq![
        Chunk { sx: 0, sy: 0, sw: s.left, sh: s.top, tx: 0, ty: 0, tw: t.left, th: t.top },
        Chunk { sx: s.left, sy: 0, sw: sc_w, sh: s.top, tx: t.left, ty: 0, tw: tc_w, th: t.top },
        Chunk {
            sx: s_right,
            sy: 0,
            sw: s.right,
            sh: s.top,
            tx: t_right,
            ty: 0,
            tw: t.right,
            th: t.top,
        },
        Chunk { sx: 0, sy: s.top, sw: s.left, sh: sc_h, tx: 0, ty: t.top, tw: t.left, th: tc_h },
        Chunk {
            sx: s.left,
            sy: s.top,
            sw: sc_w,
            sh: sc_h,
            tx: t.left,
            ty: t.top,
            tw: tc_w,
            th: tc_h,
        },
        Chunk {
            sx: s_right,
            sy: s.top,
            sw: s.right,
            sh: sc_h,
            tx: t_right,
            ty: t.top,
            tw: t.right,
            th: tc_h,
        },
        Chunk {
            sx: 0,
            sy: s_bottom,
            sw: s.left,
            sh: s.bottom,
            tx: 0,
            ty: t_bottom,
            tw: t.left,
            th: t.bottom,
        },
        Chunk {
            sx: s.left,
            sy: s_bottom,
            sw: sc_w,
            sh: s.bottom,
            tx: t.left,
            ty: t_bottom,
            tw: tc_w,
            th: t.bottom,
        },
        Chunk {
            sx: s_right,
            sy: s_bottom,
            sw: s.right,
            sh: s.bottom,
            tx: t_right,
            ty: t_bottom,
            tw: t.right,
            th: t.bottom,
        },
    ]
}

/// Whether a part is drawn: it is not empty on either side and lies inside
/// the frame's picture.
pub open spec fn is_drawn(c: Chunk, src_w: u32, src_h: u32) -> bool {
    c.sw > 0 && c.sh > 0 && c.tw > 0 && c.th > 0 && c.sx + c.sw <= src_w && c.sy + c.sh <= src_h
}

/// The image `target` after the part `c` of `source` was stretched and laid
/// over it.
pub open spec fn with_chunk(target: ImageView, source: ImageView, c: Chunk) -> ImageView {
    if is_drawn(c, source.width, source.height) {
        let stretched = ImageView {
            width: c.tw,
            height: c.th,
            bytes: resampled_bytes(
                cropped(source, c.sx, c.sy, c.sw, c.sh),
                c.tw,
                c.th,
                Filter::Triangle,
            ),
        };
        ImageView {
            width: target.width,
            height: target.height,
            bytes: overlaid_bytes(target, stretched, c.tx as i64, c.ty as i64),
        }
    } else {
        target
    }
}

/// The image `target` after all of `chunks` were laid over it, in order.
pub open spec fn with_chunks(target: ImageView, source: ImageView, chunks: Seq<Chunk>) -> ImageView
    decreases chunks.len(),
{
    if chunks.len() == 0 {
        target
    } else {
        with_chunk(with_chunks(target, source, chunks.drop_last()), source, chunks.last())
    }
}

/// Whether all parts that are drawn can be stretched on this machine.
pub open spec fn all_scalable(chunks: Seq<Chunk>, src_w: u32, src_h: u32) -> bool {
    forall|i: int|
        0 <= i < chunks.len() && is_drawn(#[trigger] chunks[i], src_w, src_h) ==> scalable(
            chunks[i].sw,
            chunks[i].sh,
            chunks[i].tw,
            chunks[i].th,
        )
}

/// The left or upper part of a side that is left between two borders.
fn gap(whole: u32, first: u32, second: u32) -> (rest: u32)
    requires
        first + second <= u32::MAX,
    ensures
        rest == between(whole, first, second),
{
    let borders: u32 = first + second;
    if whole >= borders {
        whole - borders
    } else {
        0
    }
}

/// Makes a frame of `target_w` by `target_h` pixels from the picture of a
/// frame: the corners of the picture keep their shape, its edges and its
/// middle are stretched. `source` gives the widths of the borders in the
/// picture, `target` those in the result.
///
/// Gives nothing where an image of the size asked for, or of the size of a
/// stretched part, cannot be made on this machine.
pub fn generate_nine_slice(
    src: &Raster,
    target_w: u32,
    target_h: u32,
    source: Borders,
    target: Borders,
) -> (frame: Option<Raster>)
    requires
        source.right <= src.spec_width(),
        source.bottom <= src.spec_height(),
        target.right <= target_w,
        target.bottom <= target_h,
        source.left + source.right <= u32::MAX,
        source.top + source.bottom <= u32::MAX,
        target.left + target.right <= u32::MAX,
        target.top + target.bottom <= u32::MAX,
    ensures
        frame is Some <==> rgba_len(target_w, target_h) <= isize::MAX && all_scalable(
            nine_chunks(src.spec_width(), src.spec_height(), target_w, target_h, source, target),
            src.spec_width(),
            src.spec_height(),
        ),
        frame matches Some(image) ==> image.content() == with_chunks(
            blank(target_w, target_h),
            src.content(),
            nine_chunks(src.spec_width(), src.spec_height(), target_w, target_h, source, target),
        ),
{
    let src_w: u32 = src.width();
    let src_h: u32 = src.height();
    let sc_w: u32 = gap(src_w, source.left, source.right);
    let sc_h: u32 = gap(src_h, source.top, source.bottom);
    let tc_w: u32 = gap(target_w, target.left, target.right);
    let tc_h: u32 = gap(target_h, target.top, target.bottom);
    let s_right: u32 = src_w - source.right;
    let s_bottom: u32 = src_h - source.bottom;
    let t_right: u32 = target_w - target.right;
    let t_bottom: u32 = target_h - target.bottom;
    let mut chunks: Vec<Chunk> = Vec::new();
    chunks.push(
        Chunk {
            sx: 0,
            sy: 0,
            sw: source.left,
            sh: source.top,
            tx: 0,
            ty: 0,
            tw: target.left,
            th: target.top,
        },
    );
    chunks.push(
        Chunk {
            sx: source.left,
            sy: 0,
            sw: sc_w,
            sh: source.top,
            tx: target.left,
            ty: 0,
            tw: tc_w,
            th: target.top,
        },
    );
    chunks.push(
        Chunk {
            sx: s_right,
            sy: 0,
            sw: source.right,
            sh: source.top,
            tx: t_right,
            ty: 0,
            tw: target.right,
            th: target.top,
        },
    );
    chunks.push(
        Chunk {
            sx: 0,
            sy: source.top,
            sw: source.left,
            sh: sc_h,
            tx: 0,
            ty: target.top,
            tw: target.left,
            th: tc_h,
        },
    );
    chunks.push(
        Chunk {
            sx: source.left,
            sy: source.top,
            sw: sc_w,
            sh: sc_h,
            tx: target.left,
            ty: target.top,
            tw: tc_w,
            th: tc_h,
        },
    );
    chunks.push(
        Chunk {
            sx: s_right,
            sy: source.top,
            sw: source.right,
            sh: sc_h,
            tx: t_right,
            ty: target.top,
            tw: target.right,
            th: tc_h,
        },
    );
    chunks.push(
        Chunk {
            sx: 0,
            sy: s_bottom,
            sw: source.left,
            sh: source.bottom,
            tx: 0,
            ty: t_bottom,
            tw: target.left,
            th: target.bottom,
        },
    );
    chunks.push(
        Chunk {
            sx: source.left,
            sy: s_bottom,
            sw: sc_w,
            sh: source.bottom,
            tx: target.left,
            ty: t_bottom,
            tw: tc_w,
            th: target.bottom,
        },
    );
    chunks.push(
        Chunk {
            sx: s_right,
            sy: s_bottom,
            sw: source.right,
            sh: source.bottom,
            tx: t_right,
            ty: t_bottom,
            tw: target.right,
            th: target.bottom,
        },
    );
    let ghost plan = nine_chunks(src_w, src_h, target_w, target_h, source, target);
    assert(chunks@ =~= plan);
    let mut i: usize = 0;
    while i < 9
        invariant
            i <= 9,
            chunks@ == plan,
            plan.len() == 9,
            src_w == src.spec_width(),
            src_h == src.spec_height(),
            plan == nine_chunks(
                src.spec_width(),
                src.spec_height(),
                target_w,
                target_h,
                source,
                target,
            ),
            forall|k: int|
                0 <= k < i && is_drawn(#[trigger] plan[k], src_w, src_h) ==> scalable(
                    plan[k].sw,
                    plan[k].sh,
                    plan[k].tw,
                    plan[k].th,
                ),
        decreases 9 - i,
    {
        let c = chunks[i];
        if drawn(c, src_w, src_h) && !can_scale(c.sw, c.sh, c.tw, c.th) {
            assert(c == plan[i as int]);
            assert(!all_scalable(plan, src_w, src_h));
            return None;
        }
        i += 1;
    }
    let mut out = match Raster::new(target_w, target_h) {
        Some(out) => out,
        None => {
            return None;
        },
    };
    let mut i: usize = 0;
    proof {
        assert(plan.take(0) =~= Seq::<Chunk>::empty());
    }
    while i < 9
        invariant
            i <= 9,
            chunks@ == plan,
            plan.len() == 9,
            src_w == src.spec_width(),
            src_h == src.spec_height(),
            all_scalable(plan, src_w, src_h),
            out.spec_width() == target_w,
            out.spec_height() == target_h,
            out.content() == with_chunks(
                blank(target_w, target_h),
                src.content(),
                plan.take(i as int),
            ),
        decreases 9 - i,
    {
        let c = chunks[i];
        proof {
            assert(plan.take(i + 1).drop_last() =~= plan.take(i as int));
            assert(plan.take(i + 1).last() == plan[i as int]);
        }
        if drawn(c, src_w, src_h) {
            let piece = crop(src, c.sx, c.sy, c.sw, c.sh);
            let stretched = resize_exact(&piece, c.tw, c.th, Filter::Triangle);
            overlay(&mut out, &stretched, c.tx as i64, c.ty as i64);
        }
        i += 1;
    }
    proof {
        assert(plan.take(9) =~= plan);
    }
    Some(out)
}

/// Whether a part is drawn.
fn drawn(c: Chunk, src_w: u32, src_h: u32) -> (yes: bool)
    ensures
        yes == is_drawn(c, src_w, src_h),
{
    c.sw > 0 && c.sh > 0 && c.tw > 0 && c.th > 0 && c.sx as u64 + c.sw as u64 <= src_w as u64
        && c.sy as u64 + c.sh as u64 <= src_h as u64
}

/// Whether a frame with the borders `source` can be taken from a picture of
/// `src_w` by `src_h` pixels and be made with the borders `target` in
/// `target_w` by `target_h` pixels.
pub open spec fn borders_fit(
    src_w: u32,
    src_h: u32,
    target_w: u32,
    target_h: u32,
    source: Borders,
    target: Borders,
) -> bool {
    &&& source.right <= src_w
    &&& source.bottom <= src_h
    &&& target.right <= target_w
    &&& target.bottom <= target_h
    &&& source.left + source.right <= u32::MAX
    &&& source.top + source.bottom <= u32::MAX
    &&& target.left + target.right <= u32::MAX
    &&& target.top + target.bottom <= u32::MAX
}

/// Whether the book can be put together on this machine.
pub open spec fn book_can_be_made(
    template: ImageView,
    cover: ImageView,
    max_w: u32,
    max_h: u32,
    source: Borders,
    target: Borders,
) -> bool {
    let scaled = fitted_image(cover, max_w, max_h, Filter::Triangle);
    &&& scalable(cover.width, cover.height, max_w, max_h)
    &&& borders_fit(template.width, template.height, scaled.width, scaled.height, source, target)
    &&& rgba_len(scaled.width, scaled.height) <= isize::MAX
    &&& all_scalable(
        nine_chunks(template.width, template.height, scaled.width, scaled.height, source, target),
        template.width,
        template.height,
    )
}

/// The picture of a book: the cover, scaled to fit into `max_w` by `max_h`
/// pixels, and over it a frame of the same size that is made from
/// `template`.
pub open spec fn book_of(
    template: ImageView,
    cover: ImageView,
    max_w: u32,
    max_h: u32,
    source: Borders,
    target: Borders,
) -> ImageView {
    let scaled = fitted_image(cover, max_w, max_h, Filter::Triangle);
    let frame = with_chunks(
        blank(scaled.width, scaled.height),
        template,
        nine_chunks(template.width, template.height, scaled.width, scaled.height, source, target),
    );
    let with_cover = ImageView {
        width: scaled.width,
        height: scaled.height,
        bytes: overlaid_bytes(blank(scaled.width, scaled.height), scaled, 0, 0),
    };
    ImageView {
        width: scaled.width,
        height: scaled.height,
        bytes: overlaid_bytes(with_cover, frame, 0, 0),
    }
}

/// `top` in the middle of a transparent image of `width` by `height`
/// pixels; `None` where it does not fit or the image cannot be made.
pub open spec fn in_the_middle(top: ImageView, width: u32, height: u32) -> Option<Seq<u8>> {
    if top.width <= width && top.height <= height && rgba_len(width, height) <= isize::MAX {
        Some(
            overlaid_bytes(
                blank(width, height),
                top,
                ((width - top.width) / 2) as i64,
                ((height - top.height) / 2) as i64,
            ),
        )
    } else {
        None
    }
}

impl EpubGenerator {
    /// Puts the picture of a book together: the cover, scaled to fit into
    /// `max_w` by `max_h` pixels, with a frame round it that is made from
    /// the picture `template`. `source` gives the borders of the frame in
    /// `template`, `target` those in the result.
    pub fn compose_book(
        template: &Raster,
        cover: &Raster,
        max_w: u32,
        max_h: u32,
        source: Borders,
        target: Borders,
    ) -> (book: Option<Raster>)
        ensures
            book is Some <==> book_can_be_made(
                template.content(),
                cover.content(),
                max_w,
                max_h,
                source,
                target,
            ),
            book matches Some(image) ==> image.content() == book_of(
                template.content(),
                cover.content(),
                max_w,
                max_h,
                source,
                target,
            ),
    {
        if !can_scale(cover.width(), cover.height(), max_w, max_h) {
            return None;
        }
        let scaled = resize_fit(cover, max_w, max_h, Filter::Triangle);
        let frame_w: u32 = scaled.width();
        let frame_h: u32 = scaled.height();
        let fits: bool = source.right <= template.width() && source.bottom <= template.height()
            && target.right <= frame_w && target.bottom <= frame_h && source.left as u64
            + source.right as u64 <= u32::MAX as u64 && source.top as u64 + source.bottom as u64
            <= u32::MAX as u64 && target.left as u64 + target.right as u64 <= u32::MAX as u64
            && target.top as u64 + target.bottom as u64 <= u32::MAX as u64;
        if !fits {
            return None;
        }
        let frame = match generate_nine_slice(template, frame_w, frame_h, source, target) {
            Some(frame) => frame,
            None => {
                return None;
            },
        };
        let mut book = match Raster::new(frame_w, frame_h) {
            Some(book) => book,
            None => {
                return None;
            },
        };
        overlay(&mut book, &scaled, 0, 0);
        overlay(&mut book, &frame, 0, 0);
        Some(book)
    }

    /// Puts the finished picture of the book into the middle of a
    /// transparent image of the size asked for.
    pub fn place_in_middle(book: &Raster, width: u32, height: u32) -> (pixels: Option<Vec<u8>>)
        ensures
            crate::model::bytes_view(pixels) == in_the_middle(book.content(), width, height),
            pixels matches Some(p) ==> p@.len() == rgba_len(width, height),
    {
        if book.width() > width || book.height() > height {
            return None;
        }
        let mut canvas = match Raster::new(width, height) {
            Some(canvas) => canvas,
            None => {
                return None;
            },
        };
        let x: u32 = (width - book.width()) / 2;
        let y: u32 = (height - book.height()) / 2;
        overlay(&mut canvas, book, x as i64, y as i64);
        Some(canvas.into_raw())
    }
}

} // verus!
