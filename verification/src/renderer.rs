//! What the 3D renderer decides before it loads a model: which loader takes
//! the file, and how large the rendered image is.
//!
//! The content of a file counts for more than its name: a file that starts
//! as a binary glTF file is loaded as one whatever its extension says.

use vstd::prelude::*;
use vstd::string::*;

use crate::model::{rgba_buffer_len, rgba_len};
use crate::plugins::filament::gltf_magic;
use crate::strutil::{chars_contain, chars_start_with, contains_run, starts_with, str_eq, to_chars};

verus! {

/// The first bytes of a STEP file: `ISO-10303-21`.
pub open spec fn step_magic() -> Seq<u8> {
    seq![
        0x49u8, 0x53u8, 0x4Fu8, 0x2Du8, 0x31u8, 0x30u8, 0x33u8, 0x30u8, 0x33u8, 0x2Du8, 0x32u8,
        0x31u8,
    ]
}

/// The extensions of the CAD formats that go through the converter.
pub open spec fn is_cad_extension(extension: Seq<char>) -> bool {
    extension == "stp"@ || extension == "step"@ || extension == "igs"@ || extension == "iges"@
}

/// The loader that takes a model.
#[derive(Debug, Clone, Copy, PartialEq, Eq, Structural)]
pub enum AssetRoute {
    /// The glTF loader.
    Gltf,
    /// The CAD converter, then the general loader on what it wrote.
    Cad,
    /// The general loader.
    Assimp,
}

/// The loader for a model in a file that starts with `header` and has the
/// extension `extension` (in lower case; `None` where the name has none).
pub open spec fn file_route(header: Seq<u8>, extension: Option<Seq<char>>) -> AssetRoute {
    if gltf_magic().is_prefix_of(header) {
        AssetRoute::Gltf
    } else if step_magic().is_prefix_of(header) || (extension matches Some(e)
        && is_cad_extension(e)) {
        AssetRoute::Cad
    } else {
        AssetRoute::Assimp
    }
}

/// The loader for a model that is held in memory under a file name with the
/// extension `extension` (as written; `None` where the name has none).
pub open spec fn memory_route(buffer: Seq<u8>, extension: Option<Seq<char>>) -> AssetRoute {
    if gltf_magic().is_prefix_of(buffer) {
        AssetRoute::Gltf
    } else if extension matches Some(e) && (e == "gltf"@ || e == "glb"@) {
        AssetRoute::Gltf
    } else {
        AssetRoute::Assimp
    }
}

/// Picks the loader for a model file from its first bytes and its extension.
pub fn route_file(header: &[u8], extension: Option<&str>) -> (route: AssetRoute)
    ensures
        route == file_route(
            header@,
            match extension {
                Some(e) => Some(e@),
                None => None,
            },
        ),
{
    let gltf: [u8; 4] = [0x67, 0x6C, 0x54, 0x46];
    let step: [u8; 12] = [0x49, 0x53, 0x4F, 0x2D, 0x31, 0x30, 0x33, 0x30, 0x33, 0x2D, 0x32, 0x31];
    assert(gltf@ =~= gltf_magic());
    assert(step@ =~= step_magic());
    if starts_with(header, gltf.as_slice()) {
        return AssetRoute::Gltf;
    }
    let by_name: bool = match extension {
        Some(e) => str_eq(e, "stp") || str_eq(e, "step") || str_eq(e, "igs") || str_eq(e, "iges"),
        None => false,
    };
    if starts_with(header, step.as_slice()) || by_name {
        AssetRoute::Cad
    } else {
        AssetRoute::Assimp
    }
}

/// Picks the loader for a model in memory from its bytes and the extension
/// of the name it goes by.
pub fn route_memory(buffer: &[u8], extension: Option<&str>) -> (route: AssetRoute)
    ensures
        route == memory_route(
            buffer@,
            match extension {
                Some(e) => Some(e@),
                None => None,
            },
        ),
{
    let gltf: [u8; 4] = [0x67, 0x6C, 0x54, 0x46];
    assert(gltf@ =~= gltf_magic());
    if starts_with(buffer, gltf.as_slice()) {
        return AssetRoute::Gltf;
    }
    match extension {
        Some(e) => if str_eq(e, "gltf") || str_eq(e, "glb") {
            AssetRoute::Gltf
        } else {
            AssetRoute::Assimp
        },
        None => AssetRoute::Assimp,
    }
}

/// Whether glTF data is to be read as the binary form: it starts with the
/// glTF signature, or the name it goes by has the extension `glb`.
pub fn is_binary_gltf(data: &[u8], extension: Option<&str>) -> (binary: bool)
    ensures
        binary == (gltf_magic().is_prefix_of(data@) || (extension matches Some(e) && e@
            == "glb"@)),
{
    let gltf: [u8; 4] = [0x67, 0x6C, 0x54, 0x46];
    assert(gltf@ =~= gltf_magic());
    if starts_with(data, gltf.as_slice()) {
        return true;
    }
    match extension {
        Some(e) => str_eq(e, "glb"),
        None => false,
    }
}

/// A URI that carries its data in itself, base64 encoded.
pub open spec fn base64_data_uri(uri: Seq<char>) -> bool {
    "data:"@.is_prefix_of(uri) && contains_run(uri, ";base64,"@)
}

/// Whether a resource URI of a glTF file carries its data in itself.
pub fn is_base64_data_uri(uri: &str) -> (yes: bool)
    ensures
        yes == base64_data_uri(uri@),
{
    let text = to_chars(uri);
    let scheme = to_chars("data:");
    let marker = to_chars(";base64,");
    chars_start_with(text.as_slice(), scheme.as_slice()) && chars_contain(
        text.as_slice(),
        marker.as_slice(),
    )
}

/// Whether one of the resource URIs of a glTF file points outside the file.
pub fn has_external_resource(uris: &Vec<String>) -> (yes: bool)
    ensures
        yes == exists|i: int| 0 <= i < uris@.len() && !base64_data_uri(#[trigger] uris@[i]@),
{
    let mut i: usize = 0;
    while i < uris.len()
        invariant
            i <= uris.len(),
            forall|j: int| 0 <= j < i ==> base64_data_uri(#[trigger] uris@[j]@),
        decreases uris.len() - i,
    {
        if !is_base64_data_uri(uris[i].as_str()) {
            return true;
        }
        i += 1;
    }
    false
}

/// The part of the render target that is drawn to.
#[derive(Debug, Clone, Copy, PartialEq, Eq, Structural)]
pub struct Viewport {
    pub left: i32,
    pub bottom: i32,
    pub width: u32,
    pub height: u32,
}

impl Viewport {
    /// The size of the viewport: width, then height.
    pub fn get_size(&self) -> (size: (u32, u32))
        ensures
            size == (self.width, self.height),
    {
        (self.width, self.height)
    }

    /// The number of bytes that a screenshot of the viewport takes, four for
    /// each pixel; `None` where no buffer on this machine can hold it.
    pub fn get_screenshot_size_in_byte(&self) -> (len: Option<usize>)
        ensures
            len == if rgba_len(self.width, self.height) <= usize::MAX {
                Some(rgba_len(self.width, self.height) as usize)
            } else {
                None::<usize>
            },
    {
        rgba_buffer_len(self.width, self.height)
    }
}

/// A file that starts with the glTF signature goes to the glTF loader, and
/// not to the CAD converter, whatever extension its name has: also one that
/// is named as a STEP or IGES file.
pub proof fn lemma_gltf_content_beats_extension(header: Seq<u8>, extension: Option<Seq<char>>)
    requires
        gltf_magic().is_prefix_of(header),
    ensures
        file_route(header, extension) == AssetRoute::Gltf,
        memory_route(header, extension) == AssetRoute::Gltf,
{
}

/// A model that is held in memory never goes to the CAD converter, whatever
/// its bytes and whatever the name it goes by: no converter is started for
/// it.
pub proof fn lemma_memory_never_converts(buffer: Seq<u8>, extension: Option<Seq<char>>)
    ensures
        memory_route(buffer, extension) != AssetRoute::Cad,
{
}

/// A file that starts with the STEP signature goes to the CAD converter
/// whatever extension its name has.
pub proof fn lemma_step_content_beats_extension(header: Seq<u8>, extension: Option<Seq<char>>)
    requires
        step_magic().is_prefix_of(header),
    ensures
        file_route(header, extension) == AssetRoute::Cad,
{
    assert(step_magic()[0] != gltf_magic()[0]);
    if gltf_magic().is_prefix_of(header) {
        assert(header.subrange(0, 4)[0] == header[0]);
        assert(header.subrange(0, 12)[0] == header[0]);
    }
}

} // verus!
