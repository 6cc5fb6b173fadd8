//! Taking a model in: the limit on its size, the choice of its format, the
//! decoding, and the scale of its unit.

use crate::error::MeshError;
use crate::model::stl::{lemma_truncated_binary_is_rejected, reads_as_text};
use crate::model::{binary_len, declared_count, has_stl_extension, names_stl, sniffed};
use crate::model::{Format, Triangle, MAX_TRIANGLES};
use crate::scan::{lowercased, same};
use vstd::prelude::*;
use vstd::string::StringSliceAdditionalSpecFns;
use vstd::utf8::encode_utf8;

verus! {

/// The largest model file that is taken in, in bytes: 100 MiB.
pub const MAX_MODEL_FILE_SIZE: usize = 104_857_600;

/// Tells whether a file of the announced length may be fetched.
pub fn admits(length: usize) -> (admitted: bool)
    ensures
        admitted == (length <= MAX_MODEL_FILE_SIZE),
{
    length <= MAX_MODEL_FILE_SIZE
}

/// The size of a download after one more piece has arrived, or nothing
/// where that exceeds the limit.
pub fn received(so_far: usize, piece: usize) -> (total: Option<usize>)
    ensures
        total == if so_far + piece <= MAX_MODEL_FILE_SIZE {
            Some((so_far + piece) as usize)
        } else {
            None
        },
{
    if so_far <= MAX_MODEL_FILE_SIZE && piece <= MAX_MODEL_FILE_SIZE - so_far {
        Some(so_far + piece)
    } else {
        None
    }
}

/// The format that the hints point to: the one the declared content type
/// names, if there is one; otherwise the one the source name's extension
/// points to, if any.
pub open spec fn hinted(content_type: Option<Seq<u8>>, url: Seq<char>) -> Option<Format> {
    if content_type matches Some(declared) && names_stl(declared) {
        Some(Format::STL)
    } else if has_stl_extension(encode_utf8(lowercased(url))) {
        Some(Format::STL)
    } else {
        None
    }
}

/// The format that is used for a buffer: the hinted one, if there is one;
/// otherwise the one the bytes suggest, if any.
pub open spec fn chosen(hint: Option<Format>, bytes: Seq<u8>) -> Option<Format> {
    match hint {
        Some(format) => Some(format),
        None => sniffed(bytes),
    }
}

/// What decoding makes of a buffer. Without a format the buffer is
/// unsupported; a buffer that fails the structural check of its format is
/// invalid, and the decoder is not asked; a mesh of more than
/// `MAX_TRIANGLES` triangles is refused; otherwise the result is the
/// decoder's.
pub open spec fn decoding(hint: Option<Format>, bytes: Seq<u8>) -> Result<
    Seq<Triangle>,
    MeshError,
> {
    match chosen(hint, bytes) {
        None => Err(MeshError::UnsupportedFormat),
        Some(format) => if !format.accepts(bytes) {
            Err(MeshError::InvalidFile)
        } else {
            match format.decoded(bytes) {
                Err(error) => Err(error),
                Ok(triangles) => if triangles.len() > MAX_TRIANGLES {
                    Err(MeshError::TooManyTriangles)
                } else {
                    Ok(triangles)
                },
            }
        },
    }
}

/// The divisor that turns cubic millimetres into the cube of the unit.
pub open spec fn divisor_of(unit: Seq<u8>) -> int {
    if unit == "cm".spec_bytes() {
        1_000
    } else if unit == "m".spec_bytes() {
        1_000_000
    } else {
        1
    }
}

/// Checks a number of triangles against the ceiling.
pub fn check_triangle_count(count: usize) -> (checked: Result<(), MeshError>)
    ensures
        checked == if count <= MAX_TRIANGLES {
            Ok::<(), MeshError>(())
        } else {
            Err::<(), MeshError>(MeshError::TooManyTriangles)
        },
{
    if count <= MAX_TRIANGLES as usize {
        Ok(())
    } else {
        Err(MeshError::TooManyTriangles)
    }
}

/// Finds the format from the hints that come with a download.
pub fn hinted_format(content_type: Option<&str>, url: &str) -> (format: Option<Format>)
    ensures
        format == hinted(
            match content_type {
                Some(declared) => Some(declared.spec_bytes()),
                None => None,
            },
            url@,
        ),
{
    let declared = match content_type {
        Some(declared) => Format::from_content_type(declared),
        None => None,
    };
    match declared {
        Some(format) => Some(format),
        None => Format::from_url(url),
    }
}

/// Decodes a buffer into its triangles, all of them or none.
pub fn decode(hint: Option<Format>, bytes: &[u8]) -> (parsed: Result<Vec<Triangle>, MeshError>)
    ensures
        match parsed {
            Ok(triangles) => decoding(hint, bytes@) == Ok::<Seq<Triangle>, MeshError>(
                triangles@,
            ),
            Err(error) => decoding(hint, bytes@) == Err::<Seq<Triangle>, MeshError>(error),
        },
{
    let format = match hint {
        Some(format) => format,
        None => match Format::from_magic_bytes(bytes) {
            Some(format) => format,
            None => {
                return Err(MeshError::UnsupportedFormat);
            },
        },
    };
    if !format.validate_bytes(bytes) {
        return Err(MeshError::InvalidFile);
    }
    let triangles = match format.parse(bytes) {
        Ok(triangles) => triangles,
        Err(error) => {
            return Err(error);
        },
    };
    match check_triangle_count(triangles.len()) {
        Ok(_) => Ok(triangles),
        Err(error) => Err(error),
    }
}

/// The divisor that turns a volume in cubic millimetres into the cube of
/// the unit: a thousand for `cm`, a million for `m`, one for `mm` and for
/// anything else.
pub fn unit_divisor(unit: &str) -> (divisor: u32)
    ensures
        divisor == divisor_of(unit.spec_bytes()),
{
    let name = unit.as_bytes();
    if same(name, "cm".as_bytes()) {
        1_000
    } else if same(name, "m".as_bytes()) {
        1_000_000
    } else {
        1
    }
}

/// A buffer shorter than the count it declares asks for never reaches the
/// decoder, whatever the hint, unless it reads as text: it is reported as
/// unsupported or as invalid.
pub proof fn lemma_truncated_binary_is_not_decoded(hint: Option<Format>, bytes: Seq<u8>)
    requires
        bytes.len() < binary_len(declared_count(bytes)),
        !reads_as_text(bytes),
    ensures
        decoding(hint, bytes) == Err::<Seq<Triangle>, MeshError>(MeshError::InvalidFile)
            || decoding(hint, bytes) == Err::<Seq<Triangle>, MeshError>(
            MeshError::UnsupportedFormat,
        ),
{
    lemma_truncated_binary_is_rejected(bytes);
}

/// Decoding hands out no more than `MAX_TRIANGLES` triangles.
pub proof fn lemma_decoding_is_bounded(hint: Option<Format>, bytes: Seq<u8>)
    ensures
        decoding(hint, bytes) matches Ok(triangles) ==> triangles.len() <= MAX_TRIANGLES,
{
}

} // verus!
