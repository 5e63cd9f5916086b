//! Word documents.

use vstd::prelude::*;

use super::ThumbnailGenerator;
use crate::archive::{
    archive_len, coherent, content_by_name_of, directory_of, entries_of, entry_info, read_by_name,
    first_where, largest_where, open_archive, EntryView,
};
use crate::bitmap::{centre_picture, centred_of, Filter};
use crate::model::{bytes_view, rgba_buffer_len, rgba_len};
use crate::strutil::{
    chars_start_with, entry_extension, eq_ignore_ascii_case, extension_of, from_chars, lowercase,
    same_ignoring_ascii_case, str_eq, to_chars, to_lowercase, utf8_text, white_space,
};

verus! {

pub struct DocxGenerator;

/// Whether `xml` ends inside a tag: its last angle bracket opens one.
pub open spec fn ends_in_tag(xml: Seq<char>) -> bool
    decreases xml.len(),
{
    if xml.len() == 0 {
        false
    } else if xml.last() == '<' {
        true
    } else if xml.last() == '>' {
        false
    } else {
        ends_in_tag(xml.drop_last())
    }
}

/// The text of `xml` without its tags: every character that stands outside
/// a tag, and one space for each closing angle bracket, so that the text of
/// two elements does not run together.
pub open spec fn without_tags(xml: Seq<char>) -> Seq<char>
    decreases xml.len(),
{
    if xml.len() == 0 {
        Seq::empty()
    } else {
        let before = without_tags(xml.drop_last());
        let c = xml.last();
        if c == '<' {
            before
        } else if c == '>' {
            before.push(' ')
        } else if !ends_in_tag(xml.drop_last()) {
            before.push(c)
        } else {
            before
        }
    }
}

/// `text` with each run of white space replaced by one space.
pub open spec fn collapsed(text: Seq<char>) -> Seq<char>
    decreases text.len(),
{
    if text.len() == 0 {
        Seq::empty()
    } else {
        let before = collapsed(text.drop_last());
        let c = text.last();
        if !white_space(c) {
            before.push(c)
        } else if text.len() >= 2 && white_space(text[text.len() - 2]) {
            before
        } else {
            before.push(' ')
        }
    }
}

impl DocxGenerator {
    /// The readable text of an XML document: its tags are left out and each
    /// run of white space becomes one space.
    pub fn extract_text_from_xml(xml: &str) -> (clean_text: String)
        ensures
            clean_text@ == collapsed(without_tags(xml@)),
    {
        let mut text = String::new();
        let mut in_tag = false;
        for c in it: xml.chars()
            invariant
                it.seq() == xml@,
                text@ == without_tags(xml@.take(it.index() as int)),
                in_tag == ends_in_tag(xml@.take(it.index() as int)),
        {
            assert(xml@.take(it.index() + 1).drop_last() =~= xml@.take(it.index() as int));
            if c == '<' {
                in_tag = true;
            } else if c == '>' {
                in_tag = false;
                text.push(' ');
            } else if !in_tag {
                text.push(c);
            }
        }
        assert(xml@.take(xml@.len() as int) =~= xml@);
        let mut clean_text = String::new();
        let mut last_space = false;
        let ghost plain = text@;
        for c in it: text.as_str().chars()
            invariant
                it.seq() == plain,
                clean_text@ == collapsed(plain.take(it.index() as int)),
                last_space == (it.index() > 0 && white_space(plain[it.index() - 1])),
        {
            assert(plain.take(it.index() + 1).drop_last() =~= plain.take(it.index() as int));
            if c.is_whitespace() {
                if !last_space {
                    clean_text.push(' ');
                    last_space = true;
                }
            } else {
                clean_text.push(c);
                last_space = false;
            }
        }
        assert(plain.take(plain.len() as int) =~= plain);
        clean_text
    }
}

impl ThumbnailGenerator for DocxGenerator {
    /// The extension is `docx` in any case; the content is not looked at.
    open spec fn accepts(&self, header: Seq<u8>, extension: Seq<char>) -> bool {
        same_ignoring_ascii_case(extension, "docx"@)
    }

    open spec fn recognizes(&self, header: Seq<u8>) -> bool {
        false
    }

    open spec fn label(&self) -> Seq<char> {
        "Word (Docx) Extractor"@
    }

    fn name(&self) -> (n: &str) {
        "Word (Docx) Extractor"
    }

    fn validate(&self, header: &[u8], extension: &str) -> (ok: bool) {
        eq_ignore_ascii_case(extension, "docx")
    }

    fn sniff(&self, header: &[u8]) -> (yes: bool) {
        false
    }
}

/// The extensions of the picture formats that are taken from a document.
pub open spec fn is_picture_extension(extension: Seq<char>) -> bool {
    extension == "jpeg"@ || extension == "jpg"@ || extension == "png"@ || extension == "bmp"@
        || extension == "gif"@
}

/// Whether an entry name ends in the extension of a picture, in any case.
pub open spec fn names_picture(name: Seq<char>) -> bool {
    is_picture_extension(lowercase(extension_of(name)))
}

/// The preview that the writing program stored in the document: an entry
/// `docProps/thumbnail` with the extension of a picture.
pub open spec fn is_stored_thumbnail(entry: EntryView) -> bool {
    entry.opens && "docProps/thumbnail."@.is_prefix_of(entry.name) && names_picture(entry.name)
}

/// A picture that the document shows.
pub open spec fn is_media_picture(entry: EntryView) -> bool {
    entry.opens && "word/media/"@.is_prefix_of(entry.name) && names_picture(entry.name)
}

pub open spec fn stored_thumbnails() -> spec_fn(EntryView) -> bool {
    |entry: EntryView| is_stored_thumbnail(entry)
}

pub open spec fn media_pictures() -> spec_fn(EntryView) -> bool {
    |entry: EntryView| is_media_picture(entry)
}

/// The bytes of the stored preview of a document with the given directory:
/// the first such entry is looked up by its name.
pub open spec fn stored_thumbnail_of(entries: Seq<EntryView>) -> Option<Seq<u8>> {
    match first_where(entries, stored_thumbnails()) {
        Some(i) => content_by_name_of(entries, i),
        None => None,
    }
}

/// The bytes of the largest picture of a document with the given directory,
/// looked up by its name.
pub open spec fn largest_media_of(entries: Seq<EntryView>) -> Option<Seq<u8>> {
    match largest_where(entries, media_pictures()) {
        Some(i) => content_by_name_of(entries, i),
        None => None,
    }
}

/// Whether the name has the extension of a picture.
fn has_picture_extension(name: &[char]) -> (yes: bool)
    ensures
        yes == names_picture(name@),
{
    let extension = entry_extension(name);
    let text = from_chars(extension.as_slice());
    let lower = to_lowercase(text.as_str());
    let l = lower.as_str();
    str_eq(l, "jpeg") || str_eq(l, "jpg") || str_eq(l, "png") || str_eq(l, "bmp") || str_eq(
        l,
        "gif",
    )
}

impl DocxGenerator {
    /// The preview picture that is stored in the document `data`, still
    /// encoded; `None` where `data` is no archive, holds no such entry, or
    /// the entry cannot be read.
    pub fn embedded_thumbnail(data: &[u8]) -> (picture: Option<Vec<u8>>)
        ensures
            bytes_view(picture) == match directory_of(data@) {
                Some(entries) => stored_thumbnail_of(entries),
                None => None,
            },
    {
        let mut archive = match open_archive(vstd::slice::slice_to_vec(data)) {
            Some(archive) => archive,
            None => {
                return None;
            },
        };
        let ghost entries = entries_of(archive);
        let prefix = to_chars("docProps/thumbnail.");
        let count: usize = archive_len(&archive);
        let mut i: usize = 0;
        while i < count
            invariant
                i <= count,
                count == entries.len(),
                entries_of(archive) == entries,
                prefix@ == "docProps/thumbnail."@,
                directory_of(data@) == Some(entries),
                coherent(entries),
                first_where(entries.take(i as int), stored_thumbnails()) is None,
            decreases count - i,
        {
            assert(entries.take(i + 1).drop_last() =~= entries.take(i as int));
            if let Some((name, _size)) = entry_info(&mut archive, i) {
                let chars = to_chars(name.as_str());
                if chars_start_with(chars.as_slice(), prefix.as_slice()) && has_picture_extension(
                    chars.as_slice(),
                ) {
                    assert(entries.take(i + 1).last() == entries[i as int]);
                    assert(first_where(entries.take(i + 1), stored_thumbnails()) == Some(
                        i as int,
                    ));
                    proof {
                        lemma_first_where_extends(entries, stored_thumbnails(), i + 1);
                    }
                    return read_by_name(&mut archive, name.as_str());
                }
            }
            i += 1;
        }
        assert(entries.take(count as int) =~= entries);
        None
    }

    /// The largest picture that the document `data` shows, still encoded;
    /// `None` where `data` is no archive, holds no picture that is not empty,
    /// or the picture cannot be read.
    pub fn largest_media(data: &[u8]) -> (picture: Option<Vec<u8>>)
        ensures
            bytes_view(picture) == match directory_of(data@) {
                Some(entries) => largest_media_of(entries),
                None => None,
            },
    {
        let mut archive = match open_archive(vstd::slice::slice_to_vec(data)) {
            Some(archive) => archive,
            None => {
                return None;
            },
        };
        let ghost entries = entries_of(archive);
        let prefix = to_chars("word/media/");
        let count: usize = archive_len(&archive);
        let mut max_size: u64 = 0;
        let mut best: Option<String> = None;
        let ghost mut best_at: Option<int> = None;
        let mut i: usize = 0;
        while i < count
            invariant
                i <= count,
                count == entries.len(),
                entries_of(archive) == entries,
                prefix@ == "word/media/"@,
                best_at == largest_where(entries.take(i as int), media_pictures()),
                best_at matches Some(k) ==> 0 <= k < i && max_size == entries[k].size
                    && best is Some && best->0@ == entries[k].name,
                best_at is None ==> max_size == 0 && best is None,
            decreases count - i,
        {
            assert(entries.take(i + 1).drop_last() =~= entries.take(i as int));
            assert(forall|k: int| 0 <= k < i ==> entries.take(i + 1)[k] == entries[k]);
            if let Some((name, size)) = entry_info(&mut archive, i) {
                let chars = to_chars(name.as_str());
                if chars_start_with(chars.as_slice(), prefix.as_slice()) && size > max_size
                    && has_picture_extension(chars.as_slice()) {
                    max_size = size;
                    best = Some(name);
                    proof {
                        best_at = Some(i as int);
                    }
                }
            }
            i += 1;
        }
        assert(entries.take(count as int) =~= entries);
        match best {
            Some(name) => read_by_name(&mut archive, name.as_str()),
            None => None,
        }
    }
}

/// A first entry found among the first `n` is the first of all.
pub proof fn lemma_first_where_extends(
    entries: Seq<EntryView>,
    wanted: spec_fn(EntryView) -> bool,
    n: int,
)
    requires
        0 <= n <= entries.len(),
        first_where(entries.take(n), wanted) is Some,
    ensures
        first_where(entries, wanted) == first_where(entries.take(n), wanted),
    decreases entries.len() - n,
{
    if n < entries.len() {
        assert(entries.take(n + 1).drop_last() =~= entries.take(n));
        lemma_first_where_extends(entries, wanted, n + 1);
    } else {
        assert(entries.take(n) =~= entries);
    }
}

/// The thumbnail that is made of the encoded picture `picture`: the picture,
/// scaled to fit into `width` by `height` pixels, in the middle of a
/// transparent image of that size. `None` where the picture does not
/// decode or is too large to be scaled on this machine.
pub open spec fn fitted_picture_of(picture: Seq<u8>, width: u32, height: u32) -> Option<Seq<u8>> {
    centred_of(picture, width, height, Filter::Triangle)
}

/// The text of the document with the given directory: its main part, read
/// as UTF-8, without tags and with white space collapsed.
pub open spec fn document_text_of(entries: Seq<EntryView>) -> Option<Seq<char>> {
    match crate::archive::last_named(entries, "word/document.xml"@) {
        Some(i) => match entries[i].content {
            Some(bytes) => if vstd::utf8::valid_utf8(bytes) {
                Some(collapsed(without_tags(vstd::utf8::decode_utf8(bytes))))
            } else {
                None
            },
            None => None,
        },
        None => None,
    }
}

impl DocxGenerator {
    /// Decodes an encoded picture, scales it to fit into `width` by
    /// `height`, keeping the ratio of its sides, and puts it into the middle
    /// of a transparent image of that size. The result is an RGBA8 buffer
    /// of exactly the size asked for.
    pub fn fitted_picture(picture: &[u8], width: u32, height: u32) -> (pixels: Option<Vec<u8>>)
        ensures
            bytes_view(pixels) == fitted_picture_of(picture@, width, height),
            pixels matches Some(p) ==> p@.len() == rgba_len(width, height),
    {
        centre_picture(picture, width, height, Filter::Triangle)
    }

    /// The readable text of the document `data`; `None` where `data` is no
    /// archive, has no main part, or the part is not valid UTF-8.
    pub fn document_text(data: &[u8]) -> (text: Option<String>)
        ensures
            crate::model::text_view(text) == match directory_of(data@) {
                Some(entries) => document_text_of(entries),
                None => None,
            },
    {
        let mut archive = match open_archive(vstd::slice::slice_to_vec(data)) {
            Some(archive) => archive,
            None => {
                return None;
            },
        };
        match read_by_name(&mut archive, "word/document.xml") {
            Some(bytes) => match utf8_text(bytes) {
                Some(xml) => Some(Self::extract_text_from_xml(xml.as_str())),
                None => None,
            },
            None => None,
        }
    }
}

/// What only the host can do for a document.
pub enum HostTask {
    /// Let an installed Microsoft Word turn the document into a PDF, and
    /// render that.
    OfficeConversion,
    /// Let an installed LibreOffice turn the document into a PDF, and render
    /// that.
    LibreOfficeConversion,
    /// Render this text.
    RenderText(String),
}

/// Where the making of a document's thumbnail stands: it is over, or the
/// host has to do something and come back with the result.
pub enum DocxStep {
    /// The thumbnail, or why there is none.
    Done(Result<Vec<u8>, String>),
    /// The host is to do this and to call [`DocxGenerator::resume`] with
    /// what came of it.
    Ask(HostTask),
}

/// The pixels of the stored preview of the document `content`, scaled.
pub open spec fn stored_preview_of(content: Seq<u8>, width: u32, height: u32) -> Option<Seq<u8>> {
    match directory_of(content) {
        Some(entries) => match stored_thumbnail_of(entries) {
            Some(picture) => fitted_picture_of(picture, width, height),
            None => None,
        },
        None => None,
    }
}

/// The pixels of the largest picture of the document `content`, scaled.
pub open spec fn media_preview_of(content: Seq<u8>, width: u32, height: u32) -> Option<Seq<u8>> {
    match directory_of(content) {
        Some(entries) => match largest_media_of(entries) {
            Some(picture) => fitted_picture_of(picture, width, height),
            None => None,
        },
        None => None,
    }
}

/// The text of the document `content`.
pub open spec fn text_of(content: Seq<u8>) -> Option<Seq<char>> {
    match directory_of(content) {
        Some(entries) => document_text_of(entries),
        None => None,
    }
}

impl DocxGenerator {
    /// Begins the making of a thumbnail. `content` holds the bytes of the
    /// document: those of the file, where a path was given and the file
    /// could be read, else those that the caller gave; `filepath_given`
    /// tells whether a path was given.
    ///
    /// The ways of making the thumbnail are tried in a fixed order, and the
    /// first that works gives the thumbnail: the preview stored in the
    /// document, Microsoft Word, LibreOffice, the largest picture in the
    /// document, the document's text. A way that fails is passed over.
    /// This step tries the first way and, if it fails, asks for the second.
    pub fn generate(
        &self,
        content: Option<&[u8]>,
        filepath_given: bool,
        width: u32,
        height: u32,
    ) -> (step: DocxStep)
        ensures
            match step {
                DocxStep::Done(Ok(pixels)) => {
                    &&& content matches Some(c)
                    &&& stored_preview_of(c@, width, height) == Some(pixels@)
                    &&& pixels@.len() == rgba_len(width, height)
                },
                DocxStep::Done(Err(message)) => content is None && message@ == if filepath_given {
                    "Failed to open file and no buffer provided"@
                } else {
                    "No buffer or filepath provided for Docx"@
                },
                DocxStep::Ask(task) => {
                    &&& task is OfficeConversion
                    &&& content matches Some(c)
                    &&& stored_preview_of(c@, width, height) is None
                },
            },
    {
        let data = match content {
            Some(data) => data,
            None => {
                if filepath_given {
                    return DocxStep::Done(
                        Err("Failed to open file and no buffer provided".to_owned()),
                    );
                } else {
                    return DocxStep::Done(Err("No buffer or filepath provided for Docx".to_owned()));
                }
            },
        };
        if let Some(picture) = Self::embedded_thumbnail(data) {
            if let Some(pixels) = Self::fitted_picture(picture.as_slice(), width, height) {
                return DocxStep::Done(Ok(pixels));
            }
        }
        DocxStep::Ask(HostTask::OfficeConversion)
    }

    /// Goes on after the host has done what it was asked: `asked` is the
    /// task, `answer` what came of it. Only an image of exactly `width` by
    /// `height` pixels counts as a thumbnail; any other answer is a failure
    /// of that way. After Microsoft Word has failed LibreOffice is asked;
    /// after that has failed too the largest picture of the document is
    /// taken, or else its text is handed out to be rendered; where the
    /// document has neither, no way is left. Rendered text is the thumbnail,
    /// and a failure to render it is the failure of the whole.
    pub fn resume(
        &self,
        content: Option<&[u8]>,
        filepath_given: bool,
        width: u32,
        height: u32,
        asked: &HostTask,
        answer: Result<Vec<u8>, String>,
    ) -> (step: DocxStep)
        ensures
            step matches DocxStep::Done(Ok(pixels)) ==> pixels@.len() == rgba_len(width, height),
            is_thumbnail(answer, width, height) ==> step == DocxStep::Done(answer),
            asked is RenderText && !is_thumbnail(answer, width, height) ==> {
                &&& step matches DocxStep::Done(Err(message))
                &&& message@ == match answer {
                    Err(reason) => reason@,
                    Ok(_) => "The rendered text has another size than was asked for"@,
                }
            },
            asked is OfficeConversion && !is_thumbnail(answer, width, height) ==> step matches DocxStep::Ask(
                HostTask::LibreOfficeConversion,
            ),
            asked is LibreOfficeConversion && !is_thumbnail(answer, width, height) ==> match step {
                DocxStep::Done(Ok(pixels)) => content matches Some(c) && media_preview_of(
                    c@,
                    width,
                    height,
                ) == Some(pixels@),
                DocxStep::Ask(task) => {
                    &&& content matches Some(c)
                    &&& media_preview_of(c@, width, height) is None
                    &&& task matches HostTask::RenderText(text)
                    &&& text_of(c@) == Some(text@)
                },
                DocxStep::Done(Err(message)) => match content {
                    Some(c) => {
                        &&& media_preview_of(c@, width, height) is None
                        &&& text_of(c@) is None
                        &&& message@ == "All thumbnail generation methods failed"@
                    },
                    None => message@ == if filepath_given {
                        "Failed to re-open for fallback"@
                    } else {
                        "Failed to re-open"@
                    },
                },
            },
    {
        let good: bool = match &answer {
            Ok(pixels) => {
                let given: usize = pixels.len();
                rgba_buffer_len(width, height) == Some(given)
            },
            Err(_) => false,
        };
        if good {
            return DocxStep::Done(answer);
        }
        match asked {
            HostTask::RenderText(_) => match answer {
                Err(reason) => DocxStep::Done(Err(reason)),
                Ok(_) => DocxStep::Done(
                    Err("The rendered text has another size than was asked for".to_owned()),
                ),
            },
            HostTask::OfficeConversion => DocxStep::Ask(HostTask::LibreOfficeConversion),
            HostTask::LibreOfficeConversion => {
                let data = match content {
                    Some(data) => data,
                    None => {
                        if filepath_given {
                            return DocxStep::Done(Err("Failed to re-open for fallback".to_owned()));
                        } else {
                            return DocxStep::Done(Err("Failed to re-open".to_owned()));
                        }
                    },
                };
                if let Some(picture) = Self::largest_media(data) {
                    if let Some(pixels) = Self::fitted_picture(picture.as_slice(), width, height) {
                        return DocxStep::Done(Ok(pixels));
                    }
                }
                match Self::document_text(data) {
                    Some(text) => DocxStep::Ask(HostTask::RenderText(text)),
                    None => DocxStep::Done(
                        Err("All thumbnail generation methods failed".to_owned()),
                    ),
                }
            },
        }
    }
}

/// Whether what the host brought back is a thumbnail of the size asked for.
pub open spec fn is_thumbnail(answer: Result<Vec<u8>, String>, width: u32, height: u32) -> bool {
    answer matches Ok(pixels) && pixels@.len() == rgba_len(width, height)
}

} // verus!
