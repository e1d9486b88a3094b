//! The two forms of a glTF file, told apart by the file extension, and the
//! framing of the binary form: a header, a chunk of JSON text and, after
//! it, an optional chunk of binary data.

use vstd::prelude::*;
use vstd::slice::slice_subrange;
use crate::path::same_text;

verus! {

/// The number that starts a binary glTF file: the text `glTF`.
pub const GLB_MAGIC: u32 = 0x46546c67;

/// The type of the chunk that holds the JSON text: the text `JSON`.
pub const CHUNK_JSON: u32 = 0x4e4f534a;

/// The type of the chunk that holds binary data: the text `BIN` and a zero.
pub const CHUNK_BIN: u32 = 0x004e4942;

/// The length of the file header, in bytes.
pub const HEADER_LEN: usize = 12;

/// The length of a chunk header, in bytes.
pub const CHUNK_HEADER_LEN: usize = 8;

/// The failure to load scene contents from an asset whose extension is
/// neither `gltf` nor `glb`.
#[derive(Debug, Clone, Copy, PartialEq, Eq, Structural)]
pub struct UnsupportedExtensionError;

impl UnsupportedExtensionError {
    /// The failure in words.
    pub fn message(&self) -> (text: &'static str)
        ensures
            text@ == "unsupported GLTF file extension"@,
    {
        "unsupported GLTF file extension"
    }
}

/// The failure to load a binary glTF file whose framing is broken.
#[derive(Debug, Clone, Copy, PartialEq, Eq, Structural)]
pub struct MalformedGlbError;

impl MalformedGlbError {
    /// The failure in words.
    pub fn message(&self) -> (text: &'static str)
        ensures
            text@ == "malformed GLB file"@,
    {
        "malformed GLB file"
    }
}

/// What can be wrong with the framing of a binary glTF file.
#[derive(Debug, Clone, Copy, PartialEq, Eq, Structural)]
pub enum GlbError {
    /// The header or the first chunk is not what the format asks for.
    Malformed(MalformedGlbError),
    /// The file ends before the end of its binary chunk.
    UnexpectedEnd,
}

/// The form of a glTF file.
#[derive(Debug, Clone, Copy, PartialEq, Eq, Structural)]
pub enum GltfFormat {
    /// JSON text.
    Text,
    /// The binary container.
    Binary,
}

/// The form of the file with the extension `extension`: text for `gltf`
/// and for a file without extension, binary for `glb`.
pub open spec fn format_of(extension: Option<Seq<char>>) -> Result<
    GltfFormat,
    UnsupportedExtensionError,
> {
    match extension {
        None => Ok(GltfFormat::Text),
        Some(e) => if e == "gltf"@ {
            Ok(GltfFormat::Text)
        } else if e == "glb"@ {
            Ok(GltfFormat::Binary)
        } else {
            Err(UnsupportedExtensionError)
        },
    }
}

/// The extension as a text, where there is one.
pub open spec fn extension_text(extension: Option<&str>) -> Option<Seq<char>> {
    match extension {
        Some(e) => Some(e@),
        None => None,
    }
}

/// Tells from the extension of an asset in which form its scene contents
/// are stored.
pub fn gltf_format(extension: Option<&str>) -> (format: Result<
    GltfFormat,
    UnsupportedExtensionError,
>)
    ensures
        format == format_of(extension_text(extension)),
{
    match extension {
        None => Ok(GltfFormat::Text),
        Some(e) => {
            if same_text(e, "gltf") {
                Ok(GltfFormat::Text)
            } else if same_text(e, "glb") {
                Ok(GltfFormat::Binary)
            } else {
                Err(UnsupportedExtensionError)
            }
        },
    }
}

/// The number that four bytes at `at` hold, the lowest byte first.
pub open spec fn le_u32(bytes: Seq<u8>, at: int) -> int {
    bytes[at] + 0x100 * bytes[at + 1] + 0x1_0000 * bytes[at + 2] + 0x100_0000 * bytes[at + 3]
}

/// Reads the number that four bytes at `at` hold, the lowest byte first.
pub fn read_le_u32(bytes: &[u8], at: usize) -> (value: u32)
    requires
        at + 4 <= bytes@.len(),
    ensures
        value == le_u32(bytes@, at as int),
{
    let b0: u32 = bytes[at] as u32;
    let b1: u32 = bytes[at + 1] as u32;
    let b2: u32 = bytes[at + 2] as u32;
    let b3: u32 = bytes[at + 3] as u32;
    b0 + 0x100 * b1 + 0x1_0000 * b2 + 0x100_0000 * b3
}

/// Where the chunks of a binary glTF file lie in it: the JSON text from
/// `json_start` up to `json_end`, and the binary data, if the file has any.
pub struct GlbLayout {
    pub json_start: int,
    pub json_end: int,
    pub binary: Option<(int, int)>,
}

/// The place where the chunk after the JSON chunk starts.
pub open spec fn second_chunk(bytes: Seq<u8>) -> int {
    HEADER_LEN + CHUNK_HEADER_LEN + le_u32(bytes, HEADER_LEN as int)
}

/// The framing of a binary glTF file.
///
/// The file starts with a header of 12 bytes, whose first four hold the
/// magic number. A chunk starts with its length and its type, four bytes
/// each. The first chunk holds the JSON text; where the file ends before
/// the chunk does, the text is what is there. A second chunk, if a whole
/// chunk header follows the first, holds binary data and must be there in
/// full.
pub open spec fn glb_layout(bytes: Seq<u8>) -> Result<GlbLayout, GlbError> {
    let json_start = HEADER_LEN + CHUNK_HEADER_LEN;
    let next = second_chunk(bytes);
    if bytes.len() < HEADER_LEN || le_u32(bytes, 0) != GLB_MAGIC {
        Err(GlbError::Malformed(MalformedGlbError))
    } else if bytes.len() < json_start || le_u32(bytes, HEADER_LEN + 4) != CHUNK_JSON {
        Err(GlbError::Malformed(MalformedGlbError))
    } else if next + CHUNK_HEADER_LEN > bytes.len() {
        Ok(
            GlbLayout {
                json_start,
                json_end: if next <= bytes.len() {
                    next
                } else {
                    bytes.len() as int
                },
                binary: None,
            },
        )
    } else if le_u32(bytes, next + 4) != CHUNK_BIN {
        Err(GlbError::Malformed(MalformedGlbError))
    } else if next + CHUNK_HEADER_LEN + le_u32(bytes, next) > bytes.len() {
        Err(GlbError::UnexpectedEnd)
    } else {
        Ok(
            GlbLayout {
                json_start,
                json_end: next,
                binary: Some(
                    (next + CHUNK_HEADER_LEN, next + CHUNK_HEADER_LEN + le_u32(bytes, next)),
                ),
            },
        )
    }
}

/// The chunks of a binary glTF file.
pub struct Glb<'a> {
    /// The JSON text that describes the scene.
    pub json: &'a [u8],
    /// The binary data that comes with the file, if it has any.
    pub binary: Option<&'a [u8]>,
}

impl<'a> Glb<'a> {
    /// The chunks are those that lie at `layout` in `bytes`.
    pub open spec fn lies_at(&self, bytes: Seq<u8>, layout: GlbLayout) -> bool {
        &&& self.json@ == bytes.subrange(layout.json_start, layout.json_end)
        &&& match layout.binary {
            Some((start, end)) => self.binary matches Some(data) && data@ == bytes.subrange(
                start,
                end,
            ),
            None => self.binary is None,
        }
    }
}

/// Takes a binary glTF file apart into its chunks.
pub fn parse_glb<'a>(bytes: &'a [u8]) -> (result: Result<Glb<'a>, GlbError>)
    ensures
        match glb_layout(bytes@) {
            Ok(layout) => result matches Ok(glb) && glb.lies_at(bytes@, layout),
            Err(error) => result matches Err(e) && e == error,
        },
{
    let len = bytes.len();
    if len < HEADER_LEN || read_le_u32(bytes, 0) != GLB_MAGIC {
        return Err(GlbError::Malformed(MalformedGlbError));
    }
    let json_start: usize = HEADER_LEN + CHUNK_HEADER_LEN;
    if len < json_start || read_le_u32(bytes, HEADER_LEN + 4) != CHUNK_JSON {
        return Err(GlbError::Malformed(MalformedGlbError));
    }
    let json_len: u64 = read_le_u32(bytes, HEADER_LEN) as u64;
    let next: u64 = json_start as u64 + json_len;
    if next + CHUNK_HEADER_LEN as u64 > len as u64 {
        let json_end: usize = if next <= len as u64 {
            next as usize
        } else {
            len
        };
        return Ok(Glb { json: slice_subrange(bytes, json_start, json_end), binary: None });
    }
    let next: usize = next as usize;
    if read_le_u32(bytes, next + 4) != CHUNK_BIN {
        return Err(GlbError::Malformed(MalformedGlbError));
    }
    let binary_start: usize = next + CHUNK_HEADER_LEN;
    let binary_len: u64 = read_le_u32(bytes, next) as u64;
    if binary_start as u64 + binary_len > len as u64 {
        return Err(GlbError::UnexpectedEnd);
    }
    let binary_end: usize = (binary_start as u64 + binary_len) as usize;
    Ok(
        Glb {
            json: slice_subrange(bytes, json_start, next),
            binary: Some(slice_subrange(bytes, binary_start, binary_end)),
        },
    )
}

} // verus!
