//! The bytes in which the worker hands a joke to the page.
//!
//! The channel between the worker and the page carries bytes. A joke crosses
//! it as its payload: the bincode encoding, under bincode's standard
//! configuration, of its kind number followed by its lines. A payload has
//! at most `MAX_PAYLOAD` bytes, which is as many as the decoder can be
//! given room for on every machine; the page reads nothing longer.

use bincode::error::{DecodeError, EncodeError};
use vstd::prelude::*;

use crate::joke::{Joke, JokeView};

verus! {

/// The greatest length of a payload, in bytes: the most for which decoding
/// stays within `DECODE_BUDGET`.
pub const MAX_PAYLOAD: usize = 65_075_261;

/// The bytes that decoding one payload may claim: the greatest size that a
/// single allocation can have where addresses have 32 bits. bincode counts
/// 24 bytes at most for each line it is about to read, 8 for each length
/// and the bytes of each text; a line takes at least one byte of the
/// payload, so no payload of a joke claims more than 33 bytes for each of
/// its own and 12 besides.
pub const DECODE_BUDGET: usize = 2_147_483_647;

/// Why bincode could not encode.
#[verifier::external_type_specification]
#[verifier::external_body]
pub struct ExEncodeError(EncodeError);

/// Why bincode could not decode.
#[verifier::external_type_specification]
#[verifier::external_body]
pub struct ExDecodeError(DecodeError);

/// The bytes that `bincode::encode_to_vec` makes of a joke's kind number
/// and lines under bincode's standard configuration; nothing for what is no
/// joke that a machine can hold.
pub uninterp spec fn bincode_encoding(joke: JokeView) -> Option<Seq<u8>>;

/// The joke whose kind number and lines `bincode::decode_from_slice` reads
/// from the front of `bytes` under bincode's standard configuration with a
/// limit of `DECODE_BUDGET`; nothing where it fails.
pub uninterp spec fn bincode_decoding(bytes: Seq<u8>) -> Option<JokeView>;

/// The number of characters in `lines`.
pub open spec fn total_chars(lines: Seq<Seq<char>>) -> nat
    decreases lines.len(),
{
    if lines.len() == 0 {
        0
    } else {
        total_chars(lines.drop_last()) + lines.last().len()
    }
}

/// A length that the encoding of `joke` does not exceed: 5 bytes for the
/// kind number, 9 for the number of lines, and for each line 9 for its
/// length and 4 for each of its characters.
pub open spec fn encoding_bound(joke: JokeView) -> nat {
    14 + 9 * joke.lines.len() + 4 * total_chars(joke.lines)
}

/// Whether `joke` is short enough to be sure of a payload.
pub open spec fn fits(joke: JokeView) -> bool {
    encoding_bound(joke) <= MAX_PAYLOAD
}

/// Encodes the kind number and the lines of `joke`, in this order, with
/// `bincode::encode_to_vec`. Writing a number, a length or a text into a
/// vector has no way to fail, so there is always a result. bincode writes
/// the kind number in at most 5 bytes and a length in at most 9, and each
/// text as its UTF-8 bytes, which are at most 4 for a character.
#[verifier::external_body]
fn encode(joke: &Joke) -> (encoded: Result<Vec<u8>, EncodeError>)
    ensures
        encoded is Ok,
        encoded matches Ok(bytes) ==> bincode_encoding(joke@) == Some(bytes@),
        encoded matches Ok(bytes) ==> bytes@.len() <= encoding_bound(joke@),
{
    bincode::encode_to_vec((joke.joke_type, &joke.lines), bincode::config::standard())
}

/// Decodes a kind number and lines, in this order, from the front of
/// `bytes` with `bincode::decode_from_slice`. What `encode` made of a joke
/// is read back as that joke. The limit keeps the decoder from reserving
/// memory for more than the bytes can hold.
#[verifier::external_body]
fn decode(bytes: &[u8]) -> (decoded: Result<Joke, DecodeError>)
    requires
        bytes@.len() <= MAX_PAYLOAD,
    ensures
        decoded matches Ok(joke) ==> bincode_decoding(bytes@) == Some(joke@),
        decoded is Err ==> bincode_decoding(bytes@) is None,
        decoded matches Ok(read) ==> forall|joke: JokeView| #[trigger]
            bincode_encoding(joke) == Some(bytes@) ==> read@ == joke,
        decoded is Err ==> forall|joke: JokeView| #[trigger]
            bincode_encoding(joke) != Some(bytes@),
{
    let config = bincode::config::standard().with_limit::<DECODE_BUDGET>();
    let ((joke_type, lines), _) = bincode::decode_from_slice::<(i32, Vec<String>), _>(bytes, config)?;
    Ok(Joke { joke_type, lines })
}

/// Why a joke could not be packed, or bytes could not be read as a joke.
#[derive(Clone, Copy, Debug, PartialEq, Eq, Structural)]
pub enum CodecError {
    /// bincode did not encode the joke.
    Unencodable,
    /// There are more than `MAX_PAYLOAD` bytes.
    TooLong,
    /// The bytes do not hold a joke.
    Malformed,
}

/// The payload of `joke`, where it has one: its bincode encoding, unless
/// that is longer than `MAX_PAYLOAD`.
pub open spec fn payload(joke: JokeView) -> Option<Seq<u8>> {
    match bincode_encoding(joke) {
        Some(bytes) => if bytes.len() <= MAX_PAYLOAD {
            Some(bytes)
        } else {
            None
        },
        None => None,
    }
}

/// What packing makes of the outcome `encoded` of encoding a joke.
pub open spec fn packed(encoded: Option<Seq<u8>>) -> Result<Seq<u8>, CodecError> {
    match encoded {
        Some(bytes) => if bytes.len() <= MAX_PAYLOAD {
            Ok(bytes)
        } else {
            Err(CodecError::TooLong)
        },
        None => Err(CodecError::Unencodable),
    }
}

/// What reading makes of `bytes`, given the outcome `decoded` of decoding
/// them.
pub open spec fn unpacked(bytes: Seq<u8>, decoded: Option<JokeView>) -> Result<JokeView, CodecError> {
    if bytes.len() > MAX_PAYLOAD {
        Err(CodecError::TooLong)
    } else {
        match decoded {
            Some(joke) => Ok(joke),
            None => Err(CodecError::Malformed),
        }
    }
}

/// The view of what packing returned.
pub open spec fn packing_view(packed: Result<Vec<u8>, CodecError>) -> Result<Seq<u8>, CodecError> {
    match packed {
        Ok(bytes) => Ok(bytes@),
        Err(error) => Err(error),
    }
}

/// The view of what reading returned.
pub open spec fn reading_view(read: Result<Joke, CodecError>) -> Result<JokeView, CodecError> {
    match read {
        Ok(joke) => Ok(joke@),
        Err(error) => Err(error),
    }
}

/// Makes a payload of encoded bytes: the bytes themselves, unless there are
/// too many or none were made.
pub fn pack(encoded: Result<Vec<u8>, EncodeError>) -> (packed: Result<Vec<u8>, CodecError>)
    ensures
        packing_view(packed) == self::packed(
            match encoded {
                Ok(bytes) => Some(bytes@),
                Err(_) => None,
            },
        ),
{
    match encoded {
        Ok(bytes) => if bytes.len() <= MAX_PAYLOAD {
            Ok(bytes)
        } else {
            Err(CodecError::TooLong)
        },
        Err(_) => Err(CodecError::Unencodable),
    }
}

/// Packs `joke` into its payload. Every joke has an encoding; packing
/// fails exactly where that is longer than `MAX_PAYLOAD`, and then with
/// `TooLong`. It does not fail for a joke that fits.
pub fn encode_joke(joke: &Joke) -> (packed: Result<Vec<u8>, CodecError>)
    ensures
        bincode_encoding(joke@) matches Some(bytes) && bytes.len() <= encoding_bound(joke@),
        fits(joke@) ==> packed is Ok,
        packing_view(packed) == self::packed(bincode_encoding(joke@)),
        packed matches Ok(bytes) ==> payload(joke@) == Some(bytes@),
        packed matches Err(error) ==> payload(joke@) is None && error == CodecError::TooLong,
{
    pack(encode(joke))
}

/// Reads a joke from `bytes`. The payload of a joke is read back as that
/// joke; more than `MAX_PAYLOAD` bytes are not read at all.
pub fn decode_joke(bytes: &[u8]) -> (read: Result<Joke, CodecError>)
    ensures
        reading_view(read) == unpacked(bytes@, bincode_decoding(bytes@)),
        forall|joke: JokeView| #[trigger] payload(joke) == Some(bytes@) ==> reading_view(read) == Ok::<JokeView, CodecError>(joke),
{
    if bytes.len() > MAX_PAYLOAD {
        return Err(CodecError::TooLong);
    }
    match decode(bytes) {
        Ok(joke) => Ok(joke),
        Err(_) => Err(CodecError::Malformed),
    }
}

} // verus!
