//! Thumbnails for a file that arrives as a stream: the caller waits, up to a
//! fixed limit, while the generator works.

use vstd::prelude::*;
use vstd::string::*;

use crate::bitmap::{blend_over, blend_pixel, pixel_in, red_blue_swapped, swap_red_blue};
use crate::executor::JobOutcome;
use crate::model::{header_of, without_leading_dots, PlaceholderKind, SniffInput};
use crate::plugins::{no_match, picked, PluginManager, ThumbnailGenerator};
use crate::strutil::str_eq;
use crate::supervisor::{conclude, verdict_on, Event, Phase, Reply, Verdict};

verus! {

/// The width and the height of every thumbnail made for the shell.
pub const THUMBNAIL_SIZE: u32 = 256;

/// The number of bytes of a thumbnail made for the shell.
pub const THUMBNAIL_BYTES: usize = 256 * 256 * 4;

/// The identifier under which a component is known to the shell: 128 bits
/// in four fields. `data4` holds the last eight bytes, the first of them in
/// its highest byte.
#[derive(Debug, Clone, Copy, PartialEq, Eq, Structural)]
pub struct Guid {
    pub data1: u32,
    pub data2: u16,
    pub data3: u16,
    pub data4: u64,
}

/// Makes the handlers for one file extension.
pub struct ThumbnailProvider {
    pub clsid: Guid,
    pub file_extension: String,
}

impl ThumbnailProvider {
    pub fn new(clsid: Guid, file_extension: String) -> (provider: Self)
        ensures
            provider.clsid == clsid,
            provider.file_extension == file_extension,
    {
        Self { clsid, file_extension }
    }

    /// The identifier of this provider.
    pub fn clsid(&self) -> (id: Guid)
        ensures
            id == self.clsid,
    {
        self.clsid
    }

    /// A handler for one request; it takes the provider's extension as the
    /// hint for the file's name.
    pub fn create_instance(&self) -> (handler: ThumbnailHandler)
        ensures
            handler.hint() == self.file_extension@,
            handler.phase() == Phase::Idle,
    {
        ThumbnailHandler::new(self.file_extension.clone())
    }
}

/// Follows one request that came with a stream from its arrival to what the
/// caller is shown.
pub struct ThumbnailHandler {
    filename_hint: String,
    phase: Phase,
}

impl ThumbnailHandler {
    /// The hint for the file's name: its extension, with or without a dot.
    pub closed spec fn hint(&self) -> Seq<char> {
        self.filename_hint@
    }

    pub closed spec fn spec_phase(&self) -> Phase {
        self.phase
    }

    pub fn new(filename_hint: String) -> (handler: Self)
        ensures
            handler.hint() == filename_hint@,
            handler.phase() == Phase::Idle,
    {
        ThumbnailHandler { filename_hint, phase: Phase::Idle }
    }

    /// Where the request stands.
    #[verifier::when_used_as_spec(spec_phase)]
    pub fn phase(&self) -> (phase: Phase)
        ensures
            phase == self.spec_phase(),
    {
        self.phase
    }

    /// Takes note that the request has arrived with a stream of `filesize`
    /// bytes. A stream over the ceiling ends the request here: the result is
    /// then the "too large" placeholder, and no generator is to be asked.
    /// Otherwise the result is `None` and the stream is to be read.
    pub fn arrive(&mut self, filesize: u64) -> (blocked: Option<PlaceholderKind>)
        ensures
            final(self).hint() == old(self).hint(),
            final(self).phase() == old(self).phase().next(Event::Arrived(filesize)),
            blocked == if final(self).phase() == Phase::Sniffing {
                None
            } else {
                final(self).phase().placeholder()
            },
    {
        self.phase = self.phase.step(Event::Arrived(filesize));
        match self.phase {
            Phase::Sniffing => None,
            _ => self.phase.shown(),
        }
    }

    /// What the generators are shown of the stream's content: its first
    /// bytes, and the hint without the dots before it.
    pub fn sniff(&self, content: &[u8]) -> (input: SniffInput)
        ensures
            input.header@ == header_of(content@),
            input.extension@ == without_leading_dots(self.hint()),
    {
        SniffInput::new(content, self.filename_hint.as_str())
    }

    /// Asks the registry which generator takes the stream's content, and
    /// takes note of the answer. The result is the place of the generator
    /// that is to be run; it is `None` where no generator takes the file or
    /// the request is not waiting to be classified.
    pub fn classify<G: ThumbnailGenerator>(
        &mut self,
        registry: &PluginManager<G>,
        content: &[u8],
    ) -> (chosen: Option<usize>)
        ensures
            final(self).hint() == old(self).hint(),
            chosen is Some <==> old(self).phase() == Phase::Sniffing && final(self).phase()
                == Phase::Dispatched,
            chosen matches Some(i) ==> picked(
                registry@,
                header_of(content@),
                without_leading_dots(old(self).hint()),
                i as int,
            ),
            no_match(registry@, header_of(content@), without_leading_dots(old(self).hint()))
                ==> final(self).phase() == old(self).phase().next(Event::Classified(false)),
            !no_match(registry@, header_of(content@), without_leading_dots(old(self).hint()))
                ==> final(self).phase() == old(self).phase().next(Event::Classified(true)),
    {
        let input = self.sniff(content);
        let found = registry.select(input.header.as_slice(), input.extension.as_str());
        let before = self.phase;
        self.phase = self.phase.step(Event::Classified(found.is_some()));
        match before {
            Phase::Sniffing => found,
            _ => None,
        }
    }

    /// Takes note of how the generator's bounded run ended and says what the
    /// caller gets: the thumbnail, if the run gave a buffer of exactly
    /// [`THUMBNAIL_BYTES`] bytes while the request was dispatched; else one
    /// placeholder.
    pub fn finish(&mut self, outcome: JobOutcome<Result<Vec<u8>, String>>) -> (reply: Reply)
        ensures
            final(self).hint() == old(self).hint(),
            final(self).phase() == old(self).phase().next(
                Event::Returned(verdict_on(outcome, THUMBNAIL_SIZE, THUMBNAIL_SIZE)),
            ),
            match reply {
                Reply::Thumbnail(image) => {
                    &&& final(self).phase() == Phase::Completed
                    &&& old(self).phase() == Phase::Dispatched
                    &&& outcome matches JobOutcome::Completed(Ok(buffer))
                    &&& image.pixels() == buffer@
                    &&& image.pixels().len() == THUMBNAIL_BYTES
                    &&& image.spec_width() == THUMBNAIL_SIZE
                    &&& image.spec_height() == THUMBNAIL_SIZE
                },
                Reply::Placeholder(kind) => {
                    &&& !(old(self).phase() == Phase::Dispatched && final(self).phase()
                        == Phase::Completed)
                    &&& kind == match final(self).phase().placeholder() {
                        Some(k) => k,
                        None => PlaceholderKind::Error,
                    }
                },
            },
    {
        let before = self.phase;
        let (reply, verdict) = conclude(outcome, THUMBNAIL_SIZE, THUMBNAIL_SIZE);
        self.phase = self.phase.step(Event::Returned(verdict));
        match before {
            Phase::Dispatched => reply,
            _ => match self.phase.shown() {
                Some(kind) => Reply::Placeholder(kind),
                None => Reply::Placeholder(PlaceholderKind::Error),
            },
        }
    }
}

/// The extension under which the shell knows the icon of a file type: with
/// one dot in front, which is added where `extension` has none.
pub fn icon_extension(extension: &str) -> (dotted: String)
    ensures
        dotted@ == if extension@.len() > 0 && extension@[0] == '.' {
            extension@
        } else {
            seq!['.'] + extension@
        },
{
    let chars = crate::strutil::to_chars(extension);
    if chars.len() > 0 && chars[0] == '.' {
        extension.to_owned()
    } else {
        let mut dotted = String::new();
        dotted.push('.');
        dotted.concat(extension)
    }
}

/// Whether a generator of this name draws text that is to be laid over the
/// file's icon.
pub fn draws_over_icon(generator_name: &str) -> (yes: bool)
    ensures
        yes == (generator_name@ == "Text Renderer"@),
{
    str_eq(generator_name, "Text Renderer")
}

/// Lays rendered text over the icon of the file's type. `icon` holds the
/// icon as the shell draws it, in BGRA order, or nothing where the shell has
/// none: the text then lies on a fully transparent ground. `text` holds the
/// rendered text in RGBA order. The result is in RGBA order.
pub fn compose_over_icon(icon: Option<&[u8]>, text: &[u8]) -> (out: Vec<u8>)
    requires
        text@.len() >= THUMBNAIL_BYTES,
        icon matches Some(bgra) ==> bgra@.len() == THUMBNAIL_BYTES,
    ensures
        out@.len() == THUMBNAIL_BYTES,
        forall|k: int|
            0 <= k < THUMBNAIL_BYTES / 4 ==> #[trigger] pixel_in(out@, 4 * k) == blend_pixel(
                match icon {
                    Some(bgra) => red_blue_swapped(pixel_in(bgra@, 4 * k)),
                    None => crate::bitmap::clear_pixel(),
                },
                pixel_in(text@, 4 * k),
            ),
{
    let mut ground: Vec<u8> = match icon {
        Some(bgra) => {
            let mut copy: Vec<u8> = Vec::new();
            copy.extend_from_slice(bgra);
            assert(copy@ =~= bgra@);
            swap_red_blue(&mut copy);
            copy
        },
        None => vec![0u8; THUMBNAIL_BYTES],
    };
    let ghost under = ground@;
    assert forall|k: int| 0 <= k < THUMBNAIL_BYTES / 4 implies #[trigger] pixel_in(under, 4 * k)
        == match icon {
        Some(bgra) => red_blue_swapped(pixel_in(bgra@, 4 * k)),
        None => crate::bitmap::clear_pixel(),
    } by {}
    blend_over(&mut ground, text);
    ground
}

} // verus!
