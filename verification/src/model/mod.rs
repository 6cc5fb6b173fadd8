//! Mesh formats: recognising one from hints and magic bytes, and the
//! triangles a decoder yields.

pub mod stl;

use crate::error::MeshError;
use crate::scan::{begins_with, contains, finishes_with, le_u32, lowercased, occurs};
use crate::scan::{ends_with, is_utf8, read_le_u32, starts_with, to_lowercase};
use vstd::prelude::*;
use vstd::slice::slice_subrange;
use vstd::string::StringSliceAdditionalSpecFns;
use vstd::utf8::{encode_utf8, valid_utf8};

verus! {

/// The hard ceiling on the number of triangles of a mesh.
pub const MAX_TRIANGLES: u32 = 10_000_000;

/// Bytes before the first triangle record of a binary buffer: an 80-byte
/// header and the 32-bit triangle count.
pub const BINARY_PREFIX_LEN: usize = 84;

/// Bytes of one triangle record of a binary buffer.
pub const BINARY_RECORD_LEN: usize = 50;

/// Bytes that may follow the last triangle record of a binary buffer.
pub const TRAILING_SLACK: usize = 80;

/// Bytes at the start of a buffer in which the text heuristic looks for its
/// keywords.
pub const PREVIEW_LEN: usize = 4096;

/// The triangle count that a binary buffer declares at offset 80.
pub open spec fn declared_count(bytes: Seq<u8>) -> int
    recommends
        bytes.len() >= BINARY_PREFIX_LEN,
{
    le_u32(bytes, BINARY_PREFIX_LEN - 4)
}

/// The length of a binary buffer of `count` triangles with nothing after
/// the last record.
pub open spec fn binary_len(count: int) -> int {
    BINARY_PREFIX_LEN + count * BINARY_RECORD_LEN
}

/// The first `PREVIEW_LEN` bytes of a buffer, or all of it if it is shorter.
pub open spec fn preview(bytes: Seq<u8>) -> Seq<u8> {
    if bytes.len() <= PREVIEW_LEN {
        bytes
    } else {
        bytes.subrange(0, PREVIEW_LEN as int)
    }
}

/// The binary heuristic: a count between 1 and `MAX_TRIANGLES`, and a length
/// that fits it with at most `TRAILING_SLACK` bytes to spare.
pub open spec fn looks_binary(bytes: Seq<u8>) -> bool {
    &&& bytes.len() >= BINARY_PREFIX_LEN
    &&& 0 < declared_count(bytes) <= MAX_TRIANGLES
    &&& binary_len(declared_count(bytes)) <= bytes.len() <= binary_len(declared_count(bytes))
        + TRAILING_SLACK
}

/// The text heuristic: the buffer begins with `solid`, and its preview is
/// UTF-8 that holds both `facet` and `vertex`.
pub open spec fn looks_text(bytes: Seq<u8>) -> bool {
    &&& begins_with(bytes, "solid".spec_bytes())
    &&& valid_utf8(preview(bytes))
    &&& occurs(preview(bytes), "facet".spec_bytes())
    &&& occurs(preview(bytes), "vertex".spec_bytes())
}

/// The format that the bytes themselves suggest, if any.
pub open spec fn sniffed(bytes: Seq<u8>) -> Option<Format> {
    if looks_binary(bytes) || looks_text(bytes) {
        Some(Format::STL)
    } else {
        None
    }
}

/// A content type names the format when it holds one of the three media
/// types in use for it.
pub open spec fn names_stl(content_type: Seq<u8>) -> bool {
    ||| occurs(content_type, "application/sla".spec_bytes())
    ||| occurs(content_type, "application/vnd.ms-pki.stl".spec_bytes())
    ||| occurs(content_type, "model/stl".spec_bytes())
}

/// A lower-cased source name carries the format's extension.
pub open spec fn has_stl_extension(lowered: Seq<u8>) -> bool {
    finishes_with(lowered, ".stl".spec_bytes())
}

/// A triangle of a mesh: its three corners in the order the file gives
/// them, each corner the bit patterns of its x, y and z coordinates.
#[derive(Clone, Copy, Debug, PartialEq, Eq)]
pub struct Triangle {
    pub vertices: [[u32; 3]; 3],
}

/// A decoder of one mesh format.
pub trait MeshParser {
    /// What the decoder makes of a buffer: the triangles in file order, or
    /// the failure it reports.
    spec fn decoded(bytes: Seq<u8>) -> Result<Seq<Triangle>, MeshError>;

    /// Decodes a buffer into its triangles, all of them or none.
    fn parse(bytes: &[u8]) -> (parsed: Result<Vec<Triangle>, MeshError>)
        ensures
            match parsed {
                Ok(triangles) => Self::decoded(bytes@) == Ok::<Seq<Triangle>, MeshError>(
                    triangles@,
                ),
                Err(error) => Self::decoded(bytes@) == Err::<Seq<Triangle>, MeshError>(error),
            },
    ;
}

/// A mesh format that can be decoded.
#[derive(Clone, Copy, Debug, PartialEq, Eq, Structural)]
pub enum Format {
    STL,
}

impl Format {
    /// The format that a declared content type names, if any.
    pub fn from_content_type(content_type: &str) -> (format: Option<Format>)
        ensures
            format == if names_stl(content_type.spec_bytes()) {
                Some(Format::STL)
            } else {
                None
            },
    {
        let declared = content_type.as_bytes();
        if contains(declared, "application/sla".as_bytes()) || contains(
            declared,
            "application/vnd.ms-pki.stl".as_bytes(),
        ) || contains(declared, "model/stl".as_bytes()) {
            Some(Format::STL)
        } else {
            None
        }
    }

    /// The format that a lower-cased source name points to by its
    /// extension, if any.
    pub fn from_lowercase_url(lowered: &str) -> (format: Option<Format>)
        ensures
            format == if has_stl_extension(lowered.spec_bytes()) {
                Some(Format::STL)
            } else {
                None
            },
    {
        if ends_with(lowered.as_bytes(), ".stl".as_bytes()) {
            Some(Format::STL)
        } else {
            None
        }
    }

    /// The format that a source name points to by its extension, whatever
    /// the case of its letters.
    pub fn from_url(url: &str) -> (format: Option<Format>)
        ensures
            format == if has_stl_extension(encode_utf8(lowercased(url@))) {
                Some(Format::STL)
            } else {
                None
            },
    {
        let lowered = to_lowercase(url);
        Format::from_lowercase_url(lowered.as_str())
    }

    /// The format that the bytes themselves suggest, if any: the binary
    /// heuristic is tried first, then the text heuristic.
    pub fn from_magic_bytes(bytes: &[u8]) -> (format: Option<Format>)
        ensures
            format == sniffed(bytes@),
    {
        if bytes.len() >= BINARY_PREFIX_LEN {
            if let Some(count) = read_le_u32(bytes, BINARY_PREFIX_LEN - 4) {
                if count > 0 && count <= MAX_TRIANGLES {
                    let expected: usize = BINARY_PREFIX_LEN + (count as usize) * BINARY_RECORD_LEN;
                    if bytes.len() >= expected && bytes.len() - expected <= TRAILING_SLACK {
                        return Some(Format::STL);
                    }
                }
            }
        }
        if starts_with(bytes, "solid".as_bytes()) {
            let shown = if bytes.len() <= PREVIEW_LEN {
                bytes
            } else {
                slice_subrange(bytes, 0, PREVIEW_LEN)
            };
            if is_utf8(shown) && contains(shown, "facet".as_bytes()) && contains(
                shown,
                "vertex".as_bytes(),
            ) {
                return Some(Format::STL);
            }
        }
        None
    }

    /// Tells whether the buffer passes the structural check of this format.
    pub fn validate_bytes(&self, bytes: &[u8]) -> (valid: bool)
        ensures
            valid == self.accepts(bytes@),
    {
        match self {
            Format::STL => stl::validate_bytes(bytes),
        }
    }

    /// The buffers that pass the structural check of this format.
    pub open spec fn accepts(self, bytes: Seq<u8>) -> bool {
        match self {
            Format::STL => stl::well_formed(bytes),
        }
    }

    /// What this format's decoder makes of a buffer.
    pub open spec fn decoded(self, bytes: Seq<u8>) -> Result<Seq<Triangle>, MeshError> {
        match self {
            Format::STL => stl::STlParser::decoded(bytes),
        }
    }

    /// Decodes a buffer with this format's decoder.
    pub fn parse(&self, bytes: &[u8]) -> (parsed: Result<Vec<Triangle>, MeshError>)
        ensures
            match parsed {
                Ok(triangles) => self.decoded(bytes@) == Ok::<Seq<Triangle>, MeshError>(
                    triangles@,
                ),
                Err(error) => self.decoded(bytes@) == Err::<Seq<Triangle>, MeshError>(error),
            },
    {
        match self {
            Format::STL => stl::STlParser::parse(bytes),
        }
    }

    /// The format's short name.
    pub fn as_str(&self) -> (name: &'static str)
        ensures
            name@ == "stl"@,
    {
        match self {
            Format::STL => "stl",
        }
    }
}

/// A buffer that declares no triangles is never taken for binary: it is
/// recognised only if it reads as text.
pub proof fn lemma_zero_count_is_not_binary(bytes: Seq<u8>)
    requires
        bytes.len() >= BINARY_PREFIX_LEN,
        declared_count(bytes) == 0,
    ensures
        !looks_binary(bytes),
        !looks_text(bytes) ==> sniffed(bytes) is None,
{
}

/// A buffer that begins with `solid` but lacks `facet` or `vertex` in its
/// preview is not recognised, unless it has the shape of a binary buffer.
pub proof fn lemma_bare_sentinel_is_rejected(bytes: Seq<u8>)
    requires
        begins_with(bytes, "solid".spec_bytes()),
        !occurs(preview(bytes), "facet".spec_bytes()) || !occurs(
            preview(bytes),
            "vertex".spec_bytes(),
        ),
        !looks_binary(bytes),
    ensures
        sniffed(bytes) is None,
{
}

} // verus!
