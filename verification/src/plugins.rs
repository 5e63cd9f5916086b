//! The generator contract and the registry that picks a generator for a file.
//!
//! A generator says by `validate` whether it takes a file, judged by the
//! file's first bytes and its extension, and by `sniff` whether the first
//! bytes carry the signature of its format. The content of a file counts for
//! more than its name: the registry hands out the first generator, in the
//! order in which it was built, that knows the file by its content and takes
//! it; only where there is none, the first that takes the file at all.
//!
//! Making the thumbnail is the host's part: it reads files, drives the
//! rendering engines and runs under the bounded executor. What a generator
//! decides on the way, and what it computes from bytes, stands with the
//! generator in its module; what came back from the run goes to
//! [`crate::supervisor::conclude`].

use vstd::prelude::*;

pub mod docx;
pub mod epub;
pub mod filament;
pub mod hdri;
pub mod pdf;
pub mod psd;
pub mod text;

pub use docx::DocxGenerator;
pub use epub::EpubGenerator;
pub use filament::FilamentGenerator;
pub use hdri::HdriGenerator;
pub use pdf::PdfGenerator;
pub use psd::PsdGenerator;
pub use text::TextGenerator;

use crate::RendererBackend;

verus! {

/// What every thumbnail generator offers to the registry.
pub trait ThumbnailGenerator {
    /// The files that this generator takes: `header` holds the first bytes of
    /// the file, `extension` its extension in lower case, without the dot.
    spec fn accepts(&self, header: Seq<u8>, extension: Seq<char>) -> bool;

    /// The headers that carry the signature of this generator's format.
    spec fn recognizes(&self, header: Seq<u8>) -> bool;

    /// The generator's display name.
    spec fn label(&self) -> Seq<char>;

    /// Friendly name of the generator.
    fn name(&self) -> (n: &str)
        ensures
            n@ == self.label(),
    ;

    /// Whether this generator can handle the given file.
    fn validate(&self, header: &[u8], extension: &str) -> (ok: bool)
        ensures
            ok == self.accepts(header@, extension@),
    ;

    /// Whether the first bytes of a file carry the signature of this
    /// generator's format.
    fn sniff(&self, header: &[u8]) -> (yes: bool)
        ensures
            yes == self.recognizes(header@),
    ;
}

/// The generators that ship with the library, as one type, so that a registry
/// can hold them side by side.
pub enum Generator {
    Filament(FilamentGenerator),
    Psd(PsdGenerator),
    Text(TextGenerator),
    Docx(DocxGenerator),
    Epub(EpubGenerator),
    Hdri(HdriGenerator),
    Pdf(PdfGenerator),
}

impl ThumbnailGenerator for Generator {
    open spec fn accepts(&self, header: Seq<u8>, extension: Seq<char>) -> bool {
        match *self {
            Generator::Filament(g) => g.accepts(header, extension),
            Generator::Psd(g) => g.accepts(header, extension),
            Generator::Text(g) => g.accepts(header, extension),
            Generator::Docx(g) => g.accepts(header, extension),
            Generator::Epub(g) => g.accepts(header, extension),
            Generator::Hdri(g) => g.accepts(header, extension),
            Generator::Pdf(g) => g.accepts(header, extension),
        }
    }

    open spec fn recognizes(&self, header: Seq<u8>) -> bool {
        match *self {
            Generator::Filament(g) => g.recognizes(header),
            Generator::Psd(g) => g.recognizes(header),
            Generator::Text(g) => g.recognizes(header),
            Generator::Docx(g) => g.recognizes(header),
            Generator::Epub(g) => g.recognizes(header),
            Generator::Hdri(g) => g.recognizes(header),
            Generator::Pdf(g) => g.recognizes(header),
        }
    }

    open spec fn label(&self) -> Seq<char> {
        match *self {
            Generator::Filament(g) => g.label(),
            Generator::Psd(g) => g.label(),
            Generator::Text(g) => g.label(),
            Generator::Docx(g) => g.label(),
            Generator::Epub(g) => g.label(),
            Generator::Hdri(g) => g.label(),
            Generator::Pdf(g) => g.label(),
        }
    }

    fn name(&self) -> (n: &str) {
        match self {
            Generator::Filament(g) => g.name(),
            Generator::Psd(g) => g.name(),
            Generator::Text(g) => g.name(),
            Generator::Docx(g) => g.name(),
            Generator::Epub(g) => g.name(),
            Generator::Hdri(g) => g.name(),
            Generator::Pdf(g) => g.name(),
        }
    }

    fn validate(&self, header: &[u8], extension: &str) -> (ok: bool) {
        match self {
            Generator::Filament(g) => g.validate(header, extension),
            Generator::Psd(g) => g.validate(header, extension),
            Generator::Text(g) => g.validate(header, extension),
            Generator::Docx(g) => g.validate(header, extension),
            Generator::Epub(g) => g.validate(header, extension),
            Generator::Hdri(g) => g.validate(header, extension),
            Generator::Pdf(g) => g.validate(header, extension),
        }
    }

    fn sniff(&self, header: &[u8]) -> (yes: bool) {
        match self {
            Generator::Filament(g) => g.sniff(header),
            Generator::Psd(g) => g.sniff(header),
            Generator::Text(g) => g.sniff(header),
            Generator::Docx(g) => g.sniff(header),
            Generator::Epub(g) => g.sniff(header),
            Generator::Hdri(g) => g.sniff(header),
            Generator::Pdf(g) => g.sniff(header),
        }
    }
}

/// The generators of a registry built by [`PluginManager::with_backend`], in
/// their order: 3D models first, then PSD, then plain text.
pub open spec fn standard_generators(backend: RendererBackend) -> Seq<Generator> {
    seq![
        Generator::Filament(FilamentGenerator { backend }),
        Generator::Psd(PsdGenerator),
        Generator::Text(TextGenerator),
    ]
}

/// The generator knows the file by its content and takes it.
pub open spec fn takes_by_content<G: ThumbnailGenerator>(
    generator: G,
    header: Seq<u8>,
    extension: Seq<char>,
) -> bool {
    generator.recognizes(header) && generator.accepts(header, extension)
}

/// `generators[i]` knows the file by its content and takes it, and none
/// before it does.
pub open spec fn first_by_content<G: ThumbnailGenerator>(
    generators: Seq<G>,
    header: Seq<u8>,
    extension: Seq<char>,
    i: int,
) -> bool {
    &&& 0 <= i < generators.len()
    &&& takes_by_content(generators[i], header, extension)
    &&& forall|j: int|
        0 <= j < i ==> !takes_by_content(#[trigger] generators[j], header, extension)
}

/// No generator of the sequence knows the file by its content and takes it.
pub open spec fn none_by_content<G: ThumbnailGenerator>(
    generators: Seq<G>,
    header: Seq<u8>,
    extension: Seq<char>,
) -> bool {
    forall|j: int|
        0 <= j < generators.len() ==> !takes_by_content(
            #[trigger] generators[j],
            header,
            extension,
        )
}

/// `generators[i]` accepts the file and none before it does.
pub open spec fn first_match<G: ThumbnailGenerator>(
    generators: Seq<G>,
    header: Seq<u8>,
    extension: Seq<char>,
    i: int,
) -> bool {
    &&& 0 <= i < generators.len()
    &&& generators[i].accepts(header, extension)
    &&& forall|j: int| 0 <= j < i ==> !(#[trigger] generators[j]).accepts(header, extension)
}

/// `generators[i]` is the generator that the registry picks for the file:
/// the first that knows it by its content and takes it; where there is no
/// such generator, the first that takes it.
pub open spec fn picked<G: ThumbnailGenerator>(
    generators: Seq<G>,
    header: Seq<u8>,
    extension: Seq<char>,
    i: int,
) -> bool {
    first_by_content(generators, header, extension, i) || (none_by_content(
        generators,
        header,
        extension,
    ) && first_match(generators, header, extension, i))
}

/// No generator of the sequence accepts the file.
pub open spec fn no_match<G: ThumbnailGenerator>(
    generators: Seq<G>,
    header: Seq<u8>,
    extension: Seq<char>,
) -> bool {
    forall|j: int|
        0 <= j < generators.len() ==> !(#[trigger] generators[j]).accepts(header, extension)
}

/// An ordered list of generators. The order is fixed when the registry is
/// built and decides between generators that accept the same file.
pub struct PluginManager<G: ThumbnailGenerator> {
    generators: Vec<G>,
}

impl<G: ThumbnailGenerator> View for PluginManager<G> {
    type V = Seq<G>;

    closed spec fn view(&self) -> Seq<G> {
        self.generators@
    }
}

impl PluginManager<Generator> {
    /// The standard registry with the Vulkan backend for 3D models.
    pub fn new() -> (m: Self)
        ensures
            m@ == standard_generators(RendererBackend::Vulkan),
    {
        Self::with_backend(RendererBackend::Vulkan)
    }

    /// The standard registry; `backend` is handed to the 3D generator.
    pub fn with_backend(backend: RendererBackend) -> (m: Self)
        ensures
            m@ == standard_generators(backend),
    {
        let mut generators: Vec<Generator> = Vec::new();
        generators.push(Generator::Filament(FilamentGenerator::new(backend)));
        generators.push(Generator::Psd(PsdGenerator));
        generators.push(Generator::Text(TextGenerator));
        assert(generators@ =~= standard_generators(backend));
        PluginManager { generators }
    }
}

impl<G: ThumbnailGenerator> PluginManager<G> {
    /// A registry that asks `generators` in the order given.
    pub fn with_generators(generators: Vec<G>) -> (m: Self)
        ensures
            m@ == generators@,
    {
        PluginManager { generators }
    }

    /// The number of generators in the registry.
    pub fn len(&self) -> (n: usize)
        ensures
            n == self@.len(),
    {
        self.generators.len()
    }

    /// The generator at place `i`, if the registry has so many.
    pub fn get(&self, i: usize) -> (found: Option<&G>)
        ensures
            found is Some <==> i < self@.len(),
            found matches Some(g) ==> *g == self@[i as int],
    {
        if i < self.generators.len() {
            Some(&self.generators[i])
        } else {
            None
        }
    }

    /// The place of the generator that is picked for the file, if any
    /// generator accepts it.
    pub fn select(&self, header: &[u8], extension: &str) -> (found: Option<usize>)
        ensures
            match found {
                Some(i) => picked(self@, header@, extension@, i as int),
                None => no_match(self@, header@, extension@),
            },
    {
        let mut first: Option<usize> = None;
        let mut i: usize = 0;
        while i < self.generators.len()
            invariant
                i <= self.generators.len(),
                forall|j: int|
                    0 <= j < i ==> !takes_by_content(
                        #[trigger] self.generators@[j],
                        header@,
                        extension@,
                    ),
                match first {
                    Some(k) => k < i && first_match(self.generators@, header@, extension@, k as int),
                    None => forall|j: int|
                        0 <= j < i ==> !(#[trigger] self.generators@[j]).accepts(
                            header@,
                            extension@,
                        ),
                },
            decreases self.generators.len() - i,
        {
            if self.generators[i].validate(header, extension) {
                if self.generators[i].sniff(header) {
                    return Some(i);
                }
                if first.is_none() {
                    first = Some(i);
                }
            }
            i += 1;
        }
        first
    }

    /// The generator that is picked for the file, if any generator accepts
    /// it.
    pub fn get_generator(&self, header: &[u8], extension: &str) -> (found: Option<&G>)
        ensures
            match found {
                Some(g) => exists|i: int|
                    picked(self@, header@, extension@, i) && *g == self@[i],
                None => no_match(self@, header@, extension@),
            },
    {
        match self.select(header, extension) {
            Some(i) => Some(&self.generators[i]),
            None => None,
        }
    }
}

/// Content counts for more than the name, in every registry: where some
/// generator knows a file by its content and takes it, the generator that is
/// picked knows the file by its content, whatever the extension is and
/// whichever generators would take the file by its extension; and it is the
/// first of those that know it.
pub proof fn lemma_content_beats_extension<G: ThumbnailGenerator>(
    generators: Seq<G>,
    header: Seq<u8>,
    extension: Seq<char>,
    i: int,
    k: int,
)
    requires
        picked(generators, header, extension, i),
        0 <= k < generators.len(),
        takes_by_content(generators[k], header, extension),
    ensures
        generators[i].recognizes(header),
        first_by_content(generators, header, extension, i),
        i <= k,
{
}

/// At most one generator is picked for a file.
pub proof fn lemma_pick_is_unique<G: ThumbnailGenerator>(
    generators: Seq<G>,
    header: Seq<u8>,
    extension: Seq<char>,
    i: int,
    k: int,
)
    requires
        picked(generators, header, extension, i),
        picked(generators, header, extension, k),
    ensures
        i == k,
{
}

/// In the standard registry a file that starts with the glTF signature goes
/// to the 3D generator whatever its extension is, also where the extension
/// is one that the PSD or the text generator takes.
pub proof fn lemma_gltf_content_beats_extension(
    backend: RendererBackend,
    header: Seq<u8>,
    extension: Seq<char>,
)
    requires
        filament::gltf_magic().is_prefix_of(header),
    ensures
        picked(standard_generators(backend), header, extension, 0),
{
    let generators = standard_generators(backend);
    assert(takes_by_content(generators[0], header, extension));
}

/// In the standard registry a file that starts with the PSD signature goes
/// to the PSD generator whatever its extension is, also where the extension
/// is that of a 3D format or of a text file.
pub proof fn lemma_psd_content_beats_extension(
    backend: RendererBackend,
    header: Seq<u8>,
    extension: Seq<char>,
)
    requires
        psd::psd_magic().is_prefix_of(header),
    ensures
        picked(standard_generators(backend), header, extension, 1),
{
    let generators = standard_generators(backend);
    assert(header.subrange(0, 4)[0] == header[0]);
    assert(psd::psd_magic()[0] != filament::gltf_magic()[0]);
    assert(!filament::gltf_magic().is_prefix_of(header));
    assert(!takes_by_content(generators[0], header, extension));
    assert(takes_by_content(generators[1], header, extension));
}

/// A file with the PDF signature and the extension `ai` is not taken by the
/// PDF generator: whatever a registry holds, the generator that it picks
/// for such a file is not the PDF generator, and a PDF generator that stands
/// before the one picked has been passed over.
pub proof fn lemma_illustrator_file_passes_pdf(
    generators: Seq<Generator>,
    header: Seq<u8>,
    extension: Seq<char>,
    i: int,
)
    requires
        picked(generators, header, extension, i),
        pdf::pdf_magic().is_prefix_of(header),
        crate::strutil::same_ignoring_ascii_case(extension, "ai"@),
    ensures
        !(generators[i] is Pdf),
        forall|j: int|
            0 <= j < generators.len() && (#[trigger] generators[j]) is Pdf ==> !generators[j].accepts(
                header,
                extension,
            ),
{
}

} // verus!
