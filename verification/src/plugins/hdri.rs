//! High dynamic range images: Radiance HDR and OpenEXR.

use vstd::prelude::*;

use super::ThumbnailGenerator;
use crate::strutil::{starts_with, str_eq};

verus! {

/// The bytes `#?RADIANCE`, with which a Radiance file starts.
pub open spec fn radiance_magic() -> Seq<u8> {
    seq![0x23u8, 0x3Fu8, 0x52u8, 0x41u8, 0x44u8, 0x49u8, 0x41u8, 0x4Eu8, 0x43u8, 0x45u8]
}

/// The bytes `#?RGBE`, the other start of a Radiance file.
pub open spec fn rgbe_magic() -> Seq<u8> {
    seq![0x23u8, 0x3Fu8, 0x52u8, 0x47u8, 0x42u8, 0x45u8]
}

/// The four bytes with which an OpenEXR file starts.
pub open spec fn exr_magic() -> Seq<u8> {
    seq![0x76u8, 0x2Fu8, 0x31u8, 0x01u8]
}

pub struct HdriGenerator;

impl ThumbnailGenerator for HdriGenerator {
    /// The extension is `hdr`, `exr` or `hdri`; or the header has at least
    /// ten bytes and starts as a Radiance file does; or it starts with the
    /// OpenEXR signature.
    open spec fn accepts(&self, header: Seq<u8>, extension: Seq<char>) -> bool {
        ||| extension == "hdr"@
        ||| extension == "exr"@
        ||| extension == "hdri"@
        ||| (header.len() >= 10 && (radiance_magic().is_prefix_of(header)
            || rgbe_magic().is_prefix_of(header)))
        ||| exr_magic().is_prefix_of(header)
    }

    open spec fn recognizes(&self, header: Seq<u8>) -> bool {
        (header.len() >= 10 && (radiance_magic().is_prefix_of(header) || rgbe_magic().is_prefix_of(
            header,
        ))) || exr_magic().is_prefix_of(header)
    }

    open spec fn label(&self) -> Seq<char> {
        "HDRI Renderer"@
    }

    fn name(&self) -> (n: &str) {
        "HDRI Renderer"
    }

    fn validate(&self, header: &[u8], extension: &str) -> (ok: bool) {
        if str_eq(extension, "hdr") || str_eq(extension, "exr") || str_eq(extension, "hdri") {
            return true;
        }
        let radiance: [u8; 10] = [0x23, 0x3F, 0x52, 0x41, 0x44, 0x49, 0x41, 0x4E, 0x43, 0x45];
        let rgbe: [u8; 6] = [0x23, 0x3F, 0x52, 0x47, 0x42, 0x45];
        let exr: [u8; 4] = [0x76, 0x2F, 0x31, 0x01];
        assert(radiance@ =~= radiance_magic());
        assert(rgbe@ =~= rgbe_magic());
        assert(exr@ =~= exr_magic());
        if header.len() >= 10 && (starts_with(header, radiance.as_slice()) || starts_with(
            header,
            rgbe.as_slice(),
        )) {
            return true;
        }
        starts_with(header, exr.as_slice())
    }

    fn sniff(&self, header: &[u8]) -> (yes: bool) {
        let radiance: [u8; 10] = [0x23, 0x3F, 0x52, 0x41, 0x44, 0x49, 0x41, 0x4E, 0x43, 0x45];
        let rgbe: [u8; 6] = [0x23, 0x3F, 0x52, 0x47, 0x42, 0x45];
        let exr: [u8; 4] = [0x76, 0x2F, 0x31, 0x01];
        assert(radiance@ =~= radiance_magic());
        assert(rgbe@ =~= rgbe_magic());
        assert(exr@ =~= exr_magic());
        (header.len() >= 10 && (starts_with(header, radiance.as_slice()) || starts_with(
            header,
            rgbe.as_slice(),
        ))) || starts_with(header, exr.as_slice())
    }
}

} // verus!
