//! 3D models, rendered by the Filament engine.

use vstd::prelude::*;

use super::ThumbnailGenerator;
use crate::archive::{
    archive_len, directory_of, entries_of, entry_bytes, entry_info, open_archive, EntryView,
};
use crate::bitmap::{centre_picture, centred_of, Filter};
use crate::model::{bytes_view, rgba_len};
use crate::strutil::{
    chars_contain, chars_end_with, contains_run, lowercase, starts_with, str_eq, to_chars,
    to_lowercase,
};
use vstd::string::*;
use crate::RendererBackend;

verus! {

/// The bytes `glTF`, with which a binary glTF file starts.
pub open spec fn gltf_magic() -> Seq<u8> {
    seq![0x67u8, 0x6Cu8, 0x54u8, 0x46u8]
}

/// The extensions of the 3D formats that the renderer loads.
pub open spec fn is_model_extension(extension: Seq<char>) -> bool {
    ||| extension == "glb"@
    ||| extension == "gltf"@
    ||| extension == "obj"@
    ||| extension == "fbx"@
    ||| extension == "dae"@
    ||| extension == "ply"@
    ||| extension == "stl"@
    ||| extension == "3ds"@
    ||| extension == "stp"@
    ||| extension == "step"@
    ||| extension == "igs"@
    ||| extension == "iges"@
    ||| extension == "x3d"@
    ||| extension == "x3db"@
    ||| extension == "usdz"@
}

/// Built-in Filament renderer.
pub struct FilamentGenerator {
    pub backend: RendererBackend,
}

impl FilamentGenerator {
    pub fn new(backend: RendererBackend) -> (g: Self)
        ensures
            g.backend == backend,
    {
        FilamentGenerator { backend }
    }
}

impl ThumbnailGenerator for FilamentGenerator {
    /// A file that starts with the glTF signature is taken whatever its
    /// extension; any other file by its extension.
    open spec fn accepts(&self, header: Seq<u8>, extension: Seq<char>) -> bool {
        gltf_magic().is_prefix_of(header) || is_model_extension(extension)
    }

    open spec fn recognizes(&self, header: Seq<u8>) -> bool {
        gltf_magic().is_prefix_of(header)
    }

    open spec fn label(&self) -> Seq<char> {
        "Filament 3D Renderer"@
    }

    fn name(&self) -> (n: &str) {
        "Filament 3D Renderer"
    }

    fn validate(&self, header: &[u8], extension: &str) -> (ok: bool) {
        let magic: [u8; 4] = [0x67, 0x6C, 0x54, 0x46];
        assert(magic@ =~= gltf_magic());
        if starts_with(header, magic.as_slice()) {
            return true;
        }
        str_eq(extension, "glb") || str_eq(extension, "gltf") || str_eq(extension, "obj")
            || str_eq(extension, "fbx") || str_eq(extension, "dae") || str_eq(extension, "ply")
            || str_eq(extension, "stl") || str_eq(extension, "3ds") || str_eq(extension, "stp")
            || str_eq(extension, "step") || str_eq(extension, "igs") || str_eq(
            extension,
            "iges",
        ) || str_eq(extension, "x3d") || str_eq(extension, "x3db") || str_eq(extension, "usdz")
    }

    fn sniff(&self, header: &[u8]) -> (yes: bool) {
        let magic: [u8; 4] = [0x67, 0x6C, 0x54, 0x46];
        assert(magic@ =~= gltf_magic());
        starts_with(header, magic.as_slice())
    }
}

/// Whether a name in lower case is that of a PNG or JPEG picture.
pub open spec fn names_preview(lower: Seq<char>) -> bool {
    ".png"@.is_suffix_of(lower) || ".jpg"@.is_suffix_of(lower) || ".jpeg"@.is_suffix_of(lower)
}

/// How likely a picture of this name (in lower case) is the preview of a
/// model: a name that holds `thumbnail` counts most, one that holds
/// `preview` next.
pub open spec fn preview_score(lower: Seq<char>) -> int {
    1 + (if contains_run(lower, "thumbnail"@) {
        10int
    } else {
        0int
    }) + (if contains_run(lower, "preview"@) {
        5int
    } else {
        0int
    })
}

/// A picture in a model archive.
pub open spec fn is_preview_picture(entry: EntryView) -> bool {
    entry.opens && names_preview(lowercase(entry.name))
}

/// The place of the picture that is taken as the preview of a model
/// archive: the one with the highest score; of several with that score the
/// largest; of several of that size the first.
pub open spec fn best_preview(entries: Seq<EntryView>) -> Option<int>
    decreases entries.len(),
{
    if entries.len() == 0 {
        None
    } else {
        let before = best_preview(entries.drop_last());
        let entry = entries.last();
        if !is_preview_picture(entry) {
            before
        } else {
            match before {
                None => Some(entries.len() - 1),
                Some(b) => {
                    let best_score = preview_score(lowercase(entries[b].name));
                    let score = preview_score(lowercase(entry.name));
                    if score > best_score || (score == best_score && entry.size
                        > entries[b].size) {
                        Some(entries.len() - 1)
                    } else {
                        before
                    }
                },
            }
        }
    }
}

/// The encoded preview picture of a model archive with this directory.
pub open spec fn preview_picture_of(entries: Seq<EntryView>) -> Option<Seq<u8>> {
    match best_preview(entries) {
        Some(i) => entries[i].content,
        None => None,
    }
}

/// The score of an entry name, or nothing where it names no picture.
fn score_of(name: &str) -> (score: Option<u32>)
    ensures
        match score {
            Some(s) => names_preview(lowercase(name@)) && s == preview_score(lowercase(name@)),
            None => !names_preview(lowercase(name@)),
        },
{
    let lower = to_lowercase(name);
    let chars = to_chars(lower.as_str());
    let text = chars.as_slice();
    let png = to_chars(".png");
    let jpg = to_chars(".jpg");
    let jpeg = to_chars(".jpeg");
    if !(chars_end_with(text, png.as_slice()) || chars_end_with(text, jpg.as_slice())
        || chars_end_with(text, jpeg.as_slice())) {
        return None;
    }
    let thumbnail = to_chars("thumbnail");
    let preview = to_chars("preview");
    let mut score: u32 = 1;
    if chars_contain(text, thumbnail.as_slice()) {
        score += 10;
    }
    if chars_contain(text, preview.as_slice()) {
        score += 5;
    }
    Some(score)
}

/// Takes the preview picture out of the model archive `data`, still
/// encoded; `None` where `data` is no archive, holds no picture, or the
/// picture cannot be read.
pub fn extract_from_archive(data: &[u8]) -> (picture: Option<Vec<u8>>)
    ensures
        bytes_view(picture) == match directory_of(data@) {
            Some(entries) => preview_picture_of(entries),
            None => None,
        },
{
    let mut archive = match open_archive(vstd::slice::slice_to_vec(data)) {
        Some(archive) => archive,
        None => {
            return None;
        },
    };
    let ghost entries = entries_of(archive);
    let count: usize = archive_len(&archive);
    let mut best: Option<usize> = None;
    let mut best_score: u32 = 0;
    let mut max_size: u64 = 0;
    let mut i: usize = 0;
    while i < count
        invariant
            i <= count,
            count == entries.len(),
            entries_of(archive) == entries,
            match best {
                Some(at) => {
                    &&& best_preview(entries.take(i as int)) == Some(at as int)
                    &&& at < i
                    &&& best_score == preview_score(lowercase(entries[at as int].name))
                    &&& max_size == entries[at as int].size
                },
                None => best_preview(entries.take(i as int)) is None,
            },
        decreases count - i,
    {
        assert(entries.take(i + 1).drop_last() =~= entries.take(i as int));
        assert(forall|j: int| 0 <= j < i ==> entries.take(i + 1)[j] == entries[j]);
        if let Some((name, size)) = entry_info(&mut archive, i) {
            if let Some(score) = score_of(name.as_str()) {
                if best.is_none() || score > best_score || (score == best_score && size
                    > max_size) {
                    best_score = score;
                    max_size = size;
                    best = Some(i);
                }
            }
        }
        i += 1;
    }
    assert(entries.take(count as int) =~= entries);
    match best {
        Some(at) => entry_bytes(&mut archive, at),
        None => None,
    }
}

/// Takes the preview picture out of a USDZ file.
pub fn try_extract_usdz_image(content: &[u8]) -> (picture: Option<Vec<u8>>)
    ensures
        bytes_view(picture) == match directory_of(content@) {
            Some(entries) => preview_picture_of(entries),
            None => None,
        },
{
    extract_from_archive(content)
}

/// How the renderer is to load a model.
pub enum LoadPlan {
    /// From the USDZ file at the path given.
    Usdz,
    /// From the file at the path given.
    File,
    /// From the buffer given, under this file name as a hint at its format.
    Memory(String),
    /// Not at all: a USDZ model of which only the bytes are at hand. Its
    /// preview picture is all that can be had.
    Nothing,
}

/// The picture `picture` in the middle of a transparent image of `width` by
/// `height` pixels, scaled to fit into it; `None` where the picture does not
/// decode or an image of that size cannot be made on this machine.
pub open spec fn centered_picture_of(picture: Seq<u8>, width: u32, height: u32) -> Option<Seq<u8>> {
    centred_of(picture, width, height, Filter::Lanczos3)
}

/// What is shown for a USDZ file that the renderer could not load.
pub open spec fn usdz_preview_of(content: Seq<u8>, width: u32, height: u32) -> Option<Seq<u8>> {
    match directory_of(content) {
        Some(entries) => match preview_picture_of(entries) {
            Some(picture) => centered_picture_of(picture, width, height),
            None => None,
        },
        None => None,
    }
}

impl FilamentGenerator {
    /// Decides how the renderer is to load the model. `extension` is the
    /// file's extension; the two flags tell which sources the caller gave.
    /// A USDZ file is loaded from its path only; any other from its path if
    /// there is one, else from the buffer.
    pub fn plan(&self, extension: &str, has_buffer: bool, has_filepath: bool) -> (plan: Result<
        LoadPlan,
        String,
    >)
        ensures
            match plan {
                Ok(LoadPlan::Usdz) => extension@ == "usdz"@ && has_filepath,
                Ok(LoadPlan::Nothing) => extension@ == "usdz"@ && !has_filepath,
                Ok(LoadPlan::File) => extension@ != "usdz"@ && has_filepath,
                Ok(LoadPlan::Memory(hint)) => extension@ != "usdz"@ && !has_filepath
                    && has_buffer && hint@ == "file."@ + extension@,
                Err(message) => extension@ != "usdz"@ && !has_filepath && !has_buffer
                    && message@ == "FilamentGenerator requires either buffer or filepath"@,
            },
    {
        if str_eq(extension, "usdz") {
            if has_filepath {
                Ok(LoadPlan::Usdz)
            } else {
                Ok(LoadPlan::Nothing)
            }
        } else if has_filepath {
            Ok(LoadPlan::File)
        } else if has_buffer {
            Ok(LoadPlan::Memory("file.".to_owned().concat(extension)))
        } else {
            Err("FilamentGenerator requires either buffer or filepath".to_owned())
        }
    }

    /// Says what is given for a model after the renderer was asked.
    /// `rendered` holds the picture that the renderer drew, or nothing where
    /// it could not load the model. A picture of exactly `width` by `height`
    /// pixels is the thumbnail; in every other case the thumbnail is what
    /// [`FilamentGenerator::fallback`] gives. Every thumbnail has four bytes
    /// for each pixel of the size asked for.
    pub fn generate(
        &self,
        rendered: Option<Vec<u8>>,
        extension: &str,
        content: Option<&[u8]>,
        width: u32,
        height: u32,
    ) -> (out: Result<Vec<u8>, String>)
        ensures
            out matches Ok(pixels) ==> pixels@.len() == rgba_len(width, height),
            rendered matches Some(picture) && picture@.len() == rgba_len(width, height) ==> out
                == Ok::<Vec<u8>, String>(rendered->0),
            !(rendered matches Some(picture) && picture@.len() == rgba_len(width, height))
                ==> match out {
                Ok(pixels) => {
                    &&& extension@ == "usdz"@
                    &&& content matches Some(c)
                    &&& usdz_preview_of(c@, width, height) == Some(pixels@)
                },
                Err(message) => {
                    &&& message@ == "Failed to load 3D asset"@
                    &&& extension@ == "usdz"@ && content is Some ==> usdz_preview_of(
                        content->0@,
                        width,
                        height,
                    ) is None
                },
            },
    {
        if let Some(picture) = rendered {
            let given: usize = picture.len();
            if crate::model::rgba_buffer_len(width, height) == Some(given) {
                return Ok(picture);
            }
        }
        self.fallback(extension, content, width, height)
    }

    /// What is given when the renderer could not load the model: for a USDZ
    /// file its preview picture in the middle of a transparent image, for
    /// any other file nothing. `content` holds the bytes of the file, where
    /// they could be had.
    pub fn fallback(&self, extension: &str, content: Option<&[u8]>, width: u32, height: u32) -> (out:
        Result<Vec<u8>, String>)
        ensures
            match out {
                Ok(pixels) => {
                    &&& extension@ == "usdz"@
                    &&& content matches Some(c)
                    &&& usdz_preview_of(c@, width, height) == Some(pixels@)
                    &&& pixels@.len() == rgba_len(width, height)
                },
                Err(message) => {
                    &&& message@ == "Failed to load 3D asset"@
                    &&& extension@ == "usdz"@ && content is Some ==> usdz_preview_of(
                        content->0@,
                        width,
                        height,
                    ) is None
                },
            },
    {
        if str_eq(extension, "usdz") {
            if let Some(data) = content {
                if let Some(picture) = try_extract_usdz_image(data) {
                    if let Some(pixels) = center_picture(picture.as_slice(), width, height) {
                        return Ok(pixels);
                    }
                }
            }
        }
        Err("Failed to load 3D asset".to_owned())
    }
}

/// Puts an encoded picture into the middle of a transparent image.
pub fn center_picture(picture: &[u8], width: u32, height: u32) -> (pixels: Option<Vec<u8>>)
    ensures
        bytes_view(pixels) == centered_picture_of(picture@, width, height),
        pixels matches Some(p) ==> p@.len() == rgba_len(width, height),
{
    centre_picture(picture, width, height, Filter::Lanczos3)
}

} // verus!
