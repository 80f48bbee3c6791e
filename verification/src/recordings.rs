//! Transfer of the recording block through human-pasteable text.
//!
//! Export renders the save-data recording block into its byte image,
//! compresses it with zlib, and encodes the result as standard base64 for
//! the clipboard; import reverses the three steps and rejects text whose
//! decoded image does not have the block's fixed size. The round trip is
//! proved in [`recordings_round_trip`].

use vstd::prelude::*;

use crate::memory::{first_match_from, rip_target, scan, scan_from, spec_rip_target};
use crate::pattern::Pattern;
use crate::red::SSaveData;
use crate::save::{
    lemma_save_image_round_trip, save_from_bytes, save_to_bytes, spec_save_bytes,
    spec_save_of_bytes, SAVE_BLOB_BYTES,
};

verus! {

/// What zlib compression at the best level produces for the given bytes;
/// the result depends on the bytes alone.
pub uninterp spec fn deflate_of(data: Seq<u8>) -> Seq<u8>;

/// What zlib decompression recovers: the content exactly when the bytes
/// are a complete valid stream, `None` otherwise.
pub uninterp spec fn inflate_of(data: Seq<u8>) -> Option<Seq<u8>>;

/// The standard-alphabet, padded base64 text of the given bytes.
pub uninterp spec fn b64_of(data: Seq<u8>) -> Seq<char>;

/// What base64 decoding recovers: the bytes exactly when the text is
/// valid standard base64, `None` otherwise.
pub uninterp spec fn b64_decode_of(text: Seq<char>) -> Option<Seq<u8>>;

/// A conservative machine limit on what is handed to the text encoder.
pub const ENCODE_LIMIT: usize = usize::MAX / 8;

/// Relies on flate2's `bufread::ZlibEncoder` at `Compression::best`:
/// compression at a fixed level is a function of the input bytes alone,
/// and flate2's own decoder recovers exactly the input from its output.
/// Reading the whole stream from an in-memory slice cannot fail.
#[verifier::external_body]
fn deflate(data: &[u8]) -> (r: Vec<u8>)
    ensures
        r@ == deflate_of(data@),
        inflate_of(r@) == Some(data@),
{
    let mut encoder = flate2::bufread::ZlibEncoder::new(data, flate2::Compression::best());
    let mut out = Vec::new();
    std::io::Read::read_to_end(&mut encoder, &mut out).unwrap();
    out
}

/// Relies on flate2's `bufread::ZlibDecoder`: decompression is a function
/// of the input bytes alone, and it reports an error exactly on bytes that
/// are not a complete valid zlib stream.
#[verifier::external_body]
fn inflate(data: &[u8]) -> (r: Option<Vec<u8>>)
    ensures
        match r {
            Some(v) => inflate_of(data@) == Some(v@),
            None => inflate_of(data@) is None,
        },
{
    let mut decoder = flate2::bufread::ZlibDecoder::new(data);
    let mut out = Vec::new();
    match std::io::Read::read_to_end(&mut decoder, &mut out) {
        Ok(_) => Some(out),
        Err(_) => None,
    }
}

/// Relies on base64's `BASE64_STANDARD` engine: encoding is a function of
/// the bytes alone, and the same engine's decode recovers exactly the
/// bytes from the produced text. The length bound keeps the engine's
/// output-size computation from overflowing.
#[verifier::external_body]
fn b64_encode(data: &[u8]) -> (r: String)
    requires
        data@.len() <= ENCODE_LIMIT,
    ensures
        r@ == b64_of(data@),
        b64_decode_of(r@) == Some(data@),
{
    base64::Engine::encode(&base64::prelude::BASE64_STANDARD, data)
}

#[verifier::external_type_specification]
#[verifier::external_body]
pub struct ExDecodeError(base64::DecodeError);

/// Relies on base64's `BASE64_STANDARD` engine: decoding is a function of
/// the text alone, and it reports an error exactly on text that is not
/// valid padded standard base64.
#[verifier::external_body]
fn b64_decode(text: &str) -> (r: Result<Vec<u8>, base64::DecodeError>)
    ensures
        match r {
            Ok(v) => b64_decode_of(text@) == Some(v@),
            Err(_) => b64_decode_of(text@) is None,
        },
{
    base64::Engine::decode(&base64::prelude::BASE64_STANDARD, text)
}

/// Why an import was rejected.
#[derive(Clone, Copy, PartialEq, Eq, Structural, Debug)]
pub enum TransferError {
    /// The text is not valid base64.
    BadText,
    /// The decoded bytes are not a valid compressed stream.
    BadStream,
    /// The decompressed image is not the recording block's fixed size.
    WrongSize,
}

/// Exports the recording block as clipboard text: byte image, zlib
/// compression, base64. `None` only when the compressed image exceeds the
/// machine limit of the text encoder.
pub fn export_recordings(save: &SSaveData) -> (r: Option<String>)
    requires
        save.wf(),
    ensures
        match r {
            Some(text) => {
                &&& text@ == b64_of(deflate_of(spec_save_bytes(save@)))
                &&& b64_decode_of(text@) == Some(deflate_of(spec_save_bytes(save@)))
                &&& inflate_of(deflate_of(spec_save_bytes(save@))) == Some(
                    spec_save_bytes(save@),
                )
            },
            None => deflate_of(spec_save_bytes(save@)).len() > ENCODE_LIMIT,
        },
{
    let bytes = save_to_bytes(save);
    let compressed = deflate(bytes.as_slice());
    if compressed.len() > ENCODE_LIMIT {
        return None;
    }
    Some(b64_encode(compressed.as_slice()))
}

/// Imports clipboard text back into a recording block: base64 decode,
/// decompress, read the byte image; each step's failure is reported, and
/// an image of the wrong size is rejected rather than copied.
pub fn import_recordings(text: &str) -> (r: Result<SSaveData, TransferError>)
    ensures
        match r {
            Ok(s) => {
                &&& s.wf()
                &&& b64_decode_of(text@) matches Some(comp)
                &&& inflate_of(b64_decode_of(text@).unwrap()) matches Some(bytes)
                    && bytes.len() == SAVE_BLOB_BYTES && s@ == spec_save_of_bytes(bytes)
            },
            Err(TransferError::BadText) => b64_decode_of(text@) is None,
            Err(TransferError::BadStream) => b64_decode_of(text@) matches Some(comp)
                && inflate_of(comp) is None,
            Err(TransferError::WrongSize) => b64_decode_of(text@) matches Some(comp)
                && inflate_of(comp) matches Some(bytes) && bytes.len() != SAVE_BLOB_BYTES,
        },
{
    let compressed = match b64_decode(text) {
        Ok(v) => v,
        Err(_) => {
            return Err(TransferError::BadText);
        },
    };
    let bytes = match inflate(compressed.as_slice()) {
        Some(v) => v,
        None => {
            return Err(TransferError::BadStream);
        },
    };
    match save_from_bytes(bytes.as_slice()) {
        Some(s) => Ok(s),
        None => Err(TransferError::WrongSize),
    }
}

/// Round trip: importing what export produced gives back exactly the
/// recording block that was exported; `None` only on the text-encoder
/// machine limit.
pub fn recordings_round_trip(save: &SSaveData) -> (r: Option<SSaveData>)
    requires
        save.wf(),
    ensures
        match r {
            Some(s) => s.wf() && s@ == save@,
            None => deflate_of(spec_save_bytes(save@)).len() > ENCODE_LIMIT,
        },
{
    proof {
        lemma_save_image_round_trip(save@);
    }
    let text = match export_recordings(save) {
        Some(t) => t,
        None => {
            return None;
        },
    };
    match import_recordings(text.as_str()) {
        Ok(s) => Some(s),
        Err(_) => {
            proof {
                assert(false);
            }
            None
        },
    }
}

/// Resolves the image offset of the save-data object: the leftmost match
/// of the owning routine's signature, then the first load instruction
/// matching `load_sig` at or after it, whose rip-relative operand (a
/// 32-bit displacement at byte 3 of the 7-byte instruction) points at the
/// object. A failure of any step resolves nothing, which callers treat as
/// the feature being unavailable.
pub fn resolve_save_data_offset(image: &[u8], routine_sig: &Pattern, load_sig: &Pattern) -> (r:
    Option<usize>)
    ensures
        match first_match_from(routine_sig@, image@, 0) {
            None => r is None,
            Some(a) => match first_match_from(load_sig@, image@, a) {
                None => r is None,
                Some(inst) => match r {
                    Some(t) => spec_rip_target(image@, inst, 3, 7) == Some(t as int),
                    None => spec_rip_target(image@, inst, 3, 7) is None,
                },
            },
        },
{
    let routine = match scan(routine_sig, image) {
        Some(a) => a,
        None => {
            return None;
        },
    };
    let inst = match scan_from(load_sig, image, routine) {
        Some(i) => i,
        None => {
            return None;
        },
    };
    rip_target(image, inst, 3, 7)
}

} // verus!
