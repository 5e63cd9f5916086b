//! Thumbnails for a file that is named by its path: the caller is answered
//! at once, from the cache or with a placeholder.
//!
//! A thumbnail that is in the cache is decoded, scaled and handed out. For
//! one that is not, a background job is started that makes it and stores it
//! in the cache; the caller is shown the "loading" placeholder and finds the
//! thumbnail at a later request.

use vstd::prelude::*;
use vstd::string::*;

use crate::bitmap::{
    can_scale, decode_image, decoded_image, resampled_bytes, resize_exact, scalable, Filter,
};
use crate::cache::{cache_file_name, content_fingerprint, sha256, CacheKey, FileSample};
use crate::model::{GenerationResult, PlaceholderKind};
use crate::providers::thumbnail::{Guid, THUMBNAIL_BYTES, THUMBNAIL_SIZE};
use crate::strutil::{utf16_decoded, utf16_text};
use crate::supervisor::{Reply, MAX_SOURCE_BYTES};
use crate::RendererBackend;

verus! {

/// The longest path that a handler takes, in UTF-16 units.
pub const MAX_PATH_UNITS: usize = 1024;

/// Makes the handlers for one file extension.
pub struct ThumbnailFileProvider {
    pub clsid: Guid,
    pub file_extension: String,
    pub backend: RendererBackend,
}

impl ThumbnailFileProvider {
    pub fn new(clsid: Guid, file_extension: String, backend: RendererBackend) -> (provider: Self)
        ensures
            provider.clsid == clsid,
            provider.file_extension == file_extension,
            provider.backend == backend,
    {
        Self { clsid, file_extension, backend }
    }

    /// The identifier of this provider.
    pub fn clsid(&self) -> (id: Guid)
        ensures
            id == self.clsid,
    {
        self.clsid
    }

    /// A handler for one request. It knows no file yet.
    pub fn create_instance(&self) -> (handler: ThumbnailFileHandler)
        ensures
            handler.path() == Seq::<char>::empty(),
            handler.spec_backend() == self.backend,
    {
        ThumbnailFileHandler::new(self.backend)
    }
}

/// Where thumbnails are kept: below the user's local application data, in
/// the folder of this product, in its cache folder, under the name that the
/// key gives.
pub struct CachePath {
    /// The user's directory for local application data.
    pub root: String,
    /// The folder of this product in it: `space-thumbnails`.
    pub product: String,
    /// The folder of the cache in that: `cache`.
    pub folder: String,
    /// The name of the thumbnail's file.
    pub file_name: String,
}

/// Where the thumbnail of a file is kept. `local_app_data` is the user's
/// directory for local application data, `None` where the environment names
/// none: there is no cache then. `sample` is what is known of the file.
pub fn get_cache_path(local_app_data: Option<&str>, sample: &FileSample) -> (path: Option<
    CachePath,
>)
    ensures
        path is Some <==> local_app_data is Some,
        path matches Some(p) ==> {
            &&& p.root@ == local_app_data->0@
            &&& p.product@ == "space-thumbnails"@
            &&& p.folder@ == "cache"@
            &&& p.file_name@ == cache_file_name(sha256(sample.fingerprint()))
        },
{
    match local_app_data {
        Some(root) => {
            let key = CacheKey::for_sample(sample);
            Some(
                CachePath {
                    root: root.to_owned(),
                    product: "space-thumbnails".to_owned(),
                    folder: "cache".to_owned(),
                    file_name: key.file_name(),
                },
            )
        },
        None => None,
    }
}

/// What the host found when it looked for the thumbnail in the cache.
pub enum CacheLookup {
    /// There is no cache.
    Disabled,
    /// The cache holds no file for the key. `cache_file` is the path at
    /// which the thumbnail is to be stored.
    Miss { cache_file: String },
    /// The cache holds a file for the key, at `cache_file`. `png` is its
    /// content, or `None` where it could not be read.
    Hit { cache_file: String, png: Option<Vec<u8>> },
}

/// A program that makes a thumbnail in the background and stores it.
pub struct BackgroundJob {
    pub program: String,
    pub args: Vec<String>,
}

/// What a caller gets at once, and the job that is to be started for it.
pub struct FileReply {
    pub reply: Reply,
    pub job: Option<BackgroundJob>,
}

/// Why a handler gave no reply.
#[derive(Debug, Clone, Copy, PartialEq, Eq, Structural)]
pub enum HandlerError {
    /// The handler was not told of which file a thumbnail is wanted.
    NoFile,
}

/// The name of a backend on the command line of the background job.
pub open spec fn api_name(backend: RendererBackend) -> Seq<char> {
    match backend {
        RendererBackend::OpenGL => "open-gl"@,
        RendererBackend::Vulkan => "vulkan"@,
        RendererBackend::Metal => "metal"@,
        RendererBackend::Default => "default"@,
    }
}

/// The arguments of the background job that makes the thumbnail of the
/// file at `input` and stores it at `output`.
pub open spec fn job_arguments(output: Seq<char>, input: Seq<char>, backend: RendererBackend) -> Seq<
    Seq<char>,
> {
    seq![
        output,
        "--input"@,
        input,
        "--width"@,
        "256"@,
        "--height"@,
        "256"@,
        "--api"@,
        api_name(backend),
    ]
}

/// The pixels that are handed out for a cached thumbnail with the content
/// `png`: the picture, scaled to the size of a shell thumbnail. `None`
/// where the content does not decode.
pub open spec fn served_from_cache(png: Seq<u8>) -> Option<Seq<u8>> {
    match decoded_image(png) {
        Some(image) => if scalable(image.width, image.height, THUMBNAIL_SIZE, THUMBNAIL_SIZE) {
            Some(resampled_bytes(image, THUMBNAIL_SIZE, THUMBNAIL_SIZE, Filter::Lanczos3))
        } else {
            None
        },
        None => None,
    }
}

/// The pixels that a lookup gives at once, if it gives any.
pub open spec fn served(lookup: CacheLookup) -> Option<Seq<u8>> {
    match lookup {
        CacheLookup::Hit { cache_file, png: Some(bytes) } => served_from_cache(bytes@),
        _ => None,
    }
}

/// The path at which a thumbnail is to be stored after this lookup, if the
/// lookup names one.
pub open spec fn store_at(lookup: CacheLookup) -> Option<Seq<char>> {
    match lookup {
        CacheLookup::Disabled => None,
        CacheLookup::Miss { cache_file } => Some(cache_file@),
        CacheLookup::Hit { cache_file, png } => Some(cache_file@),
    }
}

/// Answers one request for the thumbnail of a file that is named by its path.
pub struct ThumbnailFileHandler {
    filepath: String,
    backend: RendererBackend,
}

impl ThumbnailFileHandler {
    /// The path of the file; empty until the handler is told.
    pub closed spec fn path(&self) -> Seq<char> {
        self.filepath@
    }

    pub closed spec fn spec_backend(&self) -> RendererBackend {
        self.backend
    }

    pub fn new(backend: RendererBackend) -> (handler: Self)
        ensures
            handler.path() == Seq::<char>::empty(),
            handler.spec_backend() == backend,
    {
        ThumbnailFileHandler { filepath: String::new(), backend }
    }

    /// Tells the handler the path of the file as the shell gives it: UTF-16
    /// units, ended by a zero unit or by the end of `units`. A path of more
    /// than [`MAX_PATH_UNITS`] units, an empty one and one that is no valid
    /// UTF-16 are refused; the handler then stays as it is.
    pub fn initialize_with_file(&mut self, units: &[u16]) -> (taken: bool)
        ensures
            final(self).spec_backend() == old(self).spec_backend(),
            taken <==> wide_path_of(units@) is Some,
            final(self).path() == match wide_path_of(units@) {
                Some(path) => path,
                None => old(self).path(),
            },
    {
        let mut len: usize = 0;
        while len < units.len() && units[len] != 0
            invariant
                len <= units.len(),
                len <= MAX_PATH_UNITS,
                forall|j: int| 0 <= j < len ==> units@[j] != 0,
            decreases units.len() - len,
        {
            len += 1;
            if len > MAX_PATH_UNITS {
                proof {
                    lemma_terminator(units@, len as int);
                }
                return false;
            }
        }
        proof {
            lemma_terminator(units@, len as int);
        }
        assert(terminator_of(units@) == len);
        if len == 0 {
            return false;
        }
        let (path_units, _) = units.split_at(len);
        assert(path_units@ =~= units@.take(len as int));
        match utf16_text(path_units) {
            Some(path) => {
                self.filepath = path;
                true
            },
            None => false,
        }
    }

    /// Tells the handler the path of the file.
    pub fn set_filepath(&mut self, filepath: String)
        ensures
            final(self).spec_backend() == old(self).spec_backend(),
            final(self).path() == filepath@,
    {
        self.filepath = filepath;
    }

    /// Answers the request. A thumbnail that the lookup found and that
    /// decodes is handed out, scaled to the size of a shell thumbnail; no job
    /// is started then. In every other case the caller is shown the
    /// "loading" placeholder, and a background job is to be started that
    /// stores the thumbnail where the lookup says, unless there is no cache.
    pub fn get_thumbnail(&self, lookup: CacheLookup) -> (answer: Result<FileReply, HandlerError>)
        ensures
            answer is Err <==> self.path().len() == 0,
            answer matches Ok(out) ==> match out.reply {
                Reply::Thumbnail(image) => {
                    &&& served(lookup) == Some(image.pixels())
                    &&& image.pixels().len() == THUMBNAIL_BYTES
                    &&& image.spec_width() == THUMBNAIL_SIZE
                    &&& image.spec_height() == THUMBNAIL_SIZE
                    &&& out.job is None
                },
                Reply::Placeholder(kind) => {
                    &&& served(lookup) is None
                    &&& kind == PlaceholderKind::Loading
                    &&& out.job is Some <==> store_at(lookup) is Some
                    &&& out.job matches Some(job) ==> {
                        &&& job.program@ == "space-thumbnails-cli.exe"@
                        &&& job.args@.len() == 9
                        &&& forall|k: int|
                            0 <= k < 9 ==> (#[trigger] job.args@[k])@ == job_arguments(
                                store_at(lookup)->0,
                                self.path(),
                                self.spec_backend(),
                            )[k]
                    }
                },
            },
    {
        if self.filepath.as_str().is_empty() {
            return Err(HandlerError::NoFile);
        }
        let store: Option<String> = match lookup {
            CacheLookup::Disabled => None,
            CacheLookup::Miss { cache_file } => Some(cache_file),
            CacheLookup::Hit { cache_file, png } => {
                if let Some(bytes) = png {
                    if let Some(pixels) = serve_cached(bytes.as_slice()) {
                        if let Some(image) = GenerationResult::new(
                            THUMBNAIL_SIZE,
                            THUMBNAIL_SIZE,
                            pixels,
                        ) {
                            return Ok(FileReply { reply: Reply::Thumbnail(image), job: None });
                        }
                    }
                }
                Some(cache_file)
            },
        };
        let job: Option<BackgroundJob> = match store {
            Some(output) => {
                let api: &str = match self.backend {
                    RendererBackend::OpenGL => "open-gl",
                    RendererBackend::Vulkan => "vulkan",
                    RendererBackend::Metal => "metal",
                    RendererBackend::Default => "default",
                };
                let mut args: Vec<String> = Vec::new();
                args.push(output);
                args.push("--input".to_owned());
                args.push(self.filepath.clone());
                args.push("--width".to_owned());
                args.push("256".to_owned());
                args.push("--height".to_owned());
                args.push("256".to_owned());
                args.push("--api".to_owned());
                args.push(api.to_owned());
                Some(BackgroundJob { program: "space-thumbnails-cli.exe".to_owned(), args })
            },
            None => None,
        };
        Ok(FileReply { reply: Reply::Placeholder(PlaceholderKind::Loading), job })
    }
}

/// Decodes a cached thumbnail and scales it to the size of a shell
/// thumbnail.
pub fn serve_cached(png: &[u8]) -> (pixels: Option<Vec<u8>>)
    ensures
        crate::model::bytes_view(pixels) == served_from_cache(png@),
        pixels matches Some(p) ==> p@.len() == THUMBNAIL_BYTES,
{
    match decode_image(png) {
        Some(image) => {
            if can_scale(image.width(), image.height(), THUMBNAIL_SIZE, THUMBNAIL_SIZE) {
                Some(
                    resize_exact(&image, THUMBNAIL_SIZE, THUMBNAIL_SIZE, Filter::Lanczos3).into_raw(),
                )
            } else {
                None
            }
        },
        None => None,
    }
}

/// The number of units before the first zero unit, or the number of all
/// units where none is zero.
pub open spec fn terminator_of(units: Seq<u16>) -> int
    decreases units.len(),
{
    if units.len() == 0 || units[0] == 0 {
        0
    } else {
        1 + terminator_of(units.drop_first())
    }
}

/// The path that a handler takes from the units that the shell gives.
pub open spec fn wide_path_of(units: Seq<u16>) -> Option<Seq<char>> {
    let len = terminator_of(units);
    if 0 < len <= MAX_PATH_UNITS {
        utf16_decoded(units.take(len))
    } else {
        None
    }
}

/// The terminator lies within the units.
pub proof fn lemma_terminator_bounds(units: Seq<u16>)
    ensures
        0 <= terminator_of(units) <= units.len(),
    decreases units.len(),
{
    if units.len() > 0 && units[0] != 0 {
        lemma_terminator_bounds(units.drop_first());
    }
}

/// Where the first `n` units are not zero, the terminator is not before
/// place `n`; it is there where the units end there or a zero unit stands
/// there.
pub proof fn lemma_terminator(units: Seq<u16>, n: int)
    requires
        0 <= n <= units.len(),
        forall|j: int| 0 <= j < n ==> units[j] != 0,
    ensures
        terminator_of(units) >= n,
        n == units.len() || units[n] == 0 ==> terminator_of(units) == n,
    decreases n,
{
    lemma_terminator_bounds(units);
    if n > 0 {
        assert(units[0] != 0);
        let rest = units.drop_first();
        assert forall|j: int| 0 <= j < n - 1 implies rest[j] != 0 by {
            assert(rest[j] == units[j + 1]);
        }
        lemma_terminator(rest, n - 1);
        if n < units.len() {
            assert(rest[n - 1] == units[n]);
        }
    }
}

/// Whether the content of a stream of `size` bytes is taken as the file of
/// which a thumbnail is wanted: a stream over the ceiling is not.
pub fn accepts_stream(size: u64) -> (taken: bool)
    ensures
        taken == (size <= MAX_SOURCE_BYTES),
{
    size <= MAX_SOURCE_BYTES
}

/// The name of the temporary file that holds the content of a stream; `id`
/// tells the files of different requests apart.
pub fn temp_file_name(id: &str) -> (name: String)
    ensures
        name@ == "st_temp_"@ + id@ + ".step"@,
{
    "st_temp_".to_owned().concat(id).concat(".step")
}

/// A thumbnail that was stored is found. Take any cache, seen as the files
/// it holds by name, and store under the name for some content a thumbnail
/// that decodes. A file with the same content has the same name in the
/// cache, so that a lookup for it is a hit on that thumbnail; and for such a
/// hit [`ThumbnailFileHandler::get_thumbnail`] hands out the pixels of the
/// thumbnail and starts no job: no generator runs a second time.
pub proof fn lemma_stored_thumbnail_is_served(
    files: Map<Seq<char>, Seq<u8>>,
    content: Seq<u8>,
    same_content: Seq<u8>,
    png: Seq<u8>,
    lookup: CacheLookup,
)
    requires
        same_content =~= content,
        served_from_cache(png) is Some,
        lookup matches CacheLookup::Hit { cache_file, png: Some(found) } && found@
            == files.insert(cache_file_name(sha256(content_fingerprint(content))), png)[cache_file_name(
            sha256(content_fingerprint(same_content)),
        )],
    ensures
        cache_file_name(sha256(content_fingerprint(same_content))) == cache_file_name(
            sha256(content_fingerprint(content)),
        ),
        files.insert(cache_file_name(sha256(content_fingerprint(content))), png).dom().contains(
            cache_file_name(sha256(content_fingerprint(same_content))),
        ),
        served(lookup) == served_from_cache(png),
        served(lookup) is Some,
{
}

} // verus!
