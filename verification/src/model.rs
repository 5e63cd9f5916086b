//! The values that pass between a caller, the generators and the supervisor.

use vstd::prelude::*;
use vstd::string::*;

use crate::strutil::to_chars;

verus! {

/// How many bytes of a file are shown to the generators when they are asked
/// whether they take it.
pub const HEADER_BYTES: usize = 20;

/// The number of bytes of an RGBA8 image of the given size.
pub open spec fn rgba_len(width: u32, height: u32) -> int {
    width as int * height as int * 4
}

/// The number of bytes of an RGBA8 image of the given size, where a buffer
/// of that length can exist on this machine.
pub fn rgba_buffer_len(width: u32, height: u32) -> (len: Option<usize>)
    ensures
        len == if rgba_len(width, height) <= usize::MAX {
            Some(rgba_len(width, height) as usize)
        } else {
            None::<usize>
        },
{
    assert(width as int * height as int <= 0xFFFF_FFFF * 0xFFFF_FFFF) by (nonlinear_arith)
        requires
            0 <= width <= 0xFFFF_FFFF,
            0 <= height <= 0xFFFF_FFFF,
    ;
    let pixels: u64 = width as u64 * height as u64;
    if pixels > (usize::MAX as u64) / 4 {
        None
    } else {
        Some((pixels * 4) as usize)
    }
}

/// The picture that a caller gets at once when no thumbnail can be given.
#[derive(Debug, Clone, Copy, PartialEq, Eq, Structural)]
pub enum PlaceholderKind {
    /// The thumbnail is being made in the background.
    Loading,
    /// The generator did not finish in time.
    TimedOut,
    /// The file is larger than the supervisor accepts.
    TooLarge,
    /// No generator takes the file, or the generator failed.
    Error,
}

/// Why a request was not accepted.
#[derive(Debug, Clone, Copy, PartialEq, Eq, Structural)]
pub enum RequestError {
    /// Neither the content of the file nor its path was given.
    NoSource,
    /// The width or the height asked for is zero.
    EmptySize,
}

/// One thumbnail job: where the file is, and the size asked for.
pub struct GenerationRequest {
    buffer: Option<Vec<u8>>,
    filepath: Option<String>,
    width: u32,
    height: u32,
    extension: String,
}

/// The plain content of a [`GenerationRequest`].
pub ghost struct RequestView {
    pub buffer: Option<Seq<u8>>,
    pub filepath: Option<Seq<char>>,
    pub width: u32,
    pub height: u32,
    pub extension: Seq<char>,
}

impl RequestView {
    /// A request names its source and asks for a size that is not empty.
    pub open spec fn valid(self) -> bool {
        &&& self.buffer is Some || self.filepath is Some
        &&& self.width > 0
        &&& self.height > 0
    }
}

/// The views of an optional buffer and an optional path.
pub open spec fn bytes_view(buffer: Option<Vec<u8>>) -> Option<Seq<u8>> {
    match buffer {
        Some(b) => Some(b@),
        None => None,
    }
}

pub open spec fn text_view(text: Option<String>) -> Option<Seq<char>> {
    match text {
        Some(t) => Some(t@),
        None => None,
    }
}

impl View for GenerationRequest {
    type V = RequestView;

    closed spec fn view(&self) -> RequestView {
        RequestView {
            buffer: bytes_view(self.buffer),
            filepath: text_view(self.filepath),
            width: self.width,
            height: self.height,
            extension: self.extension@,
        }
    }
}

impl GenerationRequest {
    #[verifier::type_invariant]
    spec fn well_formed(self) -> bool {
        self@.valid()
    }

    /// A request for a thumbnail of `width` by `height` pixels of the file
    /// whose content is `buffer`, or which lies at `filepath`, or both.
    pub fn new(
        buffer: Option<Vec<u8>>,
        filepath: Option<String>,
        width: u32,
        height: u32,
        extension: String,
    ) -> (made: Result<GenerationRequest, RequestError>)
        ensures
            match made {
                Ok(request) => {
                    &&& request@.valid()
                    &&& request@ == (RequestView {
                        buffer: bytes_view(buffer),
                        filepath: text_view(filepath),
                        width,
                        height,
                        extension: extension@,
                    })
                },
                Err(RequestError::NoSource) => buffer is None && filepath is None,
                Err(RequestError::EmptySize) => (buffer is Some || filepath is Some) && (width
                    == 0 || height == 0),
            },
    {
        if buffer.is_none() && filepath.is_none() {
            return Err(RequestError::NoSource);
        }
        if width == 0 || height == 0 {
            return Err(RequestError::EmptySize);
        }
        Ok(GenerationRequest { buffer, filepath, width, height, extension })
    }

    /// The content of the file, where the caller gave it.
    pub fn buffer(&self) -> (bytes: Option<&[u8]>)
        ensures
            match bytes {
                Some(b) => self@.buffer == Some(b@),
                None => self@.buffer is None,
            },
    {
        match &self.buffer {
            Some(b) => Some(b.as_slice()),
            None => None,
        }
    }

    /// The path of the file, where the caller gave it.
    pub fn filepath(&self) -> (path: Option<&str>)
        ensures
            match path {
                Some(p) => self@.filepath == Some(p@),
                None => self@.filepath is None,
            },
    {
        match &self.filepath {
            Some(p) => Some(p.as_str()),
            None => None,
        }
    }

    pub fn width(&self) -> (w: u32)
        ensures
            w == self@.width,
            w > 0,
    {
        proof {
            use_type_invariant(self);
        }
        self.width
    }

    pub fn height(&self) -> (h: u32)
        ensures
            h == self@.height,
            h > 0,
    {
        proof {
            use_type_invariant(self);
        }
        self.height
    }

    pub fn extension(&self) -> (e: &str)
        ensures
            e@ == self@.extension,
    {
        self.extension.as_str()
    }
}

/// A finished thumbnail: an RGBA8 image, four bytes for each pixel, row by
/// row. Its buffer is never shorter or longer than its size asks for.
pub struct GenerationResult {
    width: u32,
    height: u32,
    buffer: Vec<u8>,
}

impl GenerationResult {
    #[verifier::type_invariant]
    spec fn well_formed(self) -> bool {
        self.buffer@.len() == rgba_len(self.width, self.height)
    }

    pub closed spec fn spec_width(&self) -> u32 {
        self.width
    }

    pub closed spec fn spec_height(&self) -> u32 {
        self.height
    }

    /// The bytes of the image.
    pub closed spec fn pixels(&self) -> Seq<u8> {
        self.buffer@
    }

    /// Takes `buffer` as an image of `width` by `height` pixels, if it has
    /// exactly the length of one.
    pub fn new(width: u32, height: u32, buffer: Vec<u8>) -> (made: Option<GenerationResult>)
        ensures
            made is Some <==> buffer@.len() == rgba_len(width, height),
            made matches Some(result) ==> {
                &&& result.spec_width() == width
                &&& result.spec_height() == height
                &&& result.pixels() == buffer@
            },
    {
        let given: usize = buffer.len();
        match rgba_buffer_len(width, height) {
            Some(len) => {
                if given == len {
                    Some(GenerationResult { width, height, buffer })
                } else {
                    None
                }
            },
            None => None,
        }
    }

    #[verifier::when_used_as_spec(spec_width)]
    pub fn width(&self) -> (w: u32)
        ensures
            w == self.spec_width(),
    {
        self.width
    }

    #[verifier::when_used_as_spec(spec_height)]
    pub fn height(&self) -> (h: u32)
        ensures
            h == self.spec_height(),
    {
        self.height
    }

    /// The bytes of the image: four for each pixel.
    pub fn buffer(&self) -> (bytes: &[u8])
        ensures
            bytes@ == self.pixels(),
            bytes@.len() == rgba_len(self.spec_width(), self.spec_height()),
    {
        proof {
            use_type_invariant(self);
        }
        self.buffer.as_slice()
    }

    /// Gives the buffer up.
    pub fn into_raw(self) -> (bytes: Vec<u8>)
        ensures
            bytes@ == self.pixels(),
            bytes@.len() == rgba_len(self.spec_width(), self.spec_height()),
    {
        proof {
            use_type_invariant(&self);
        }
        self.buffer
    }
}

/// The text of `hint` from its first character that is not a dot.
pub open spec fn without_leading_dots(hint: Seq<char>) -> Seq<char>
    decreases hint.len(),
{
    if hint.len() > 0 && hint[0] == '.' {
        without_leading_dots(hint.drop_first())
    } else {
        hint
    }
}

/// The first [`HEADER_BYTES`] bytes of a content, or all of a shorter one.
pub open spec fn header_of(content: Seq<u8>) -> Seq<u8> {
    if content.len() > HEADER_BYTES {
        content.take(HEADER_BYTES as int)
    } else {
        content
    }
}

/// What the generators are shown of a file: its first bytes and its
/// extension.
pub struct SniffInput {
    pub header: Vec<u8>,
    pub extension: String,
}

impl SniffInput {
    /// What is shown of a file with the given content and the given file
    /// name hint, an extension with or without dots before it.
    pub fn new(content: &[u8], filename_hint: &str) -> (input: SniffInput)
        ensures
            input.header@ == header_of(content@),
            input.extension@ == without_leading_dots(filename_hint@),
    {
        let n: usize = if content.len() > HEADER_BYTES {
            HEADER_BYTES
        } else {
            content.len()
        };
        let mut header: Vec<u8> = Vec::new();
        let mut i: usize = 0;
        while i < n
            invariant
                i <= n,
                n <= content@.len(),
                header@ == content@.take(i as int),
            decreases n - i,
        {
            header.push(content[i]);
            assert(content@.take(i + 1) =~= content@.take(i as int).push(content@[i as int]));
            i += 1;
        }
        assert(content@.take(content@.len() as int) =~= content@);
        let hint = to_chars(filename_hint);
        let mut start: usize = 0;
        assert(hint@.skip(0) =~= hint@);
        while start < hint.len() && hint[start] == '.'
            invariant
                start <= hint.len(),
                hint@ == filename_hint@,
                without_leading_dots(filename_hint@) == without_leading_dots(
                    hint@.skip(start as int),
                ),
            decreases hint.len() - start,
        {
            assert(hint@.skip(start as int).drop_first() =~= hint@.skip(start + 1));
            start += 1;
        }
        let mut extension = String::new();
        let mut k: usize = start;
        while k < hint.len()
            invariant
                start <= k <= hint.len(),
                extension@ == hint@.subrange(start as int, k as int),
            decreases hint.len() - k,
        {
            extension.push(hint[k]);
            assert(hint@.subrange(start as int, k + 1) =~= hint@.subrange(
                start as int,
                k as int,
            ).push(hint@[k as int]));
            k += 1;
        }
        assert(hint@.subrange(start as int, hint@.len() as int) =~= hint@.skip(start as int));
        SniffInput { header, extension }
    }
}

} // verus!
