//! Decoding of a located symbol into its payload.

use vstd::prelude::*;
use crate::bytes::{bits_of, bits_value, bytes_of};
use crate::error::DecodeError;
use crate::mask::mask_for;
use crate::qr::{format_mask_id, short_walk_error, Code};
use crate::traversal::walk_outputs;
use crate::util::IteratorExt;

verus! {

/// The encoding nibble of byte mode.
pub const ENCODING_BYTE: u8 = 0b0100;

/// The encoding nibble of alphanumeric mode.
pub const ENCODING_ALPHANUMERIC: u8 = 0b0010;

/// The mathematical model of a decoded payload.
pub struct Message {
    pub encoding: u8,
    pub length: u8,
    pub data: Seq<u8>,
}

/// What a symbol holds: its encoding nibble, its length in bytes, and as many
/// payload bytes, as they stand in the symbol.
#[derive(Debug, PartialEq, Eq)]
pub struct Decoded {
    pub encoding: u8,
    pub length: u8,
    pub data: Vec<u8>,
}

impl View for Decoded {
    type V = Message;

    open spec fn view(&self) -> Message {
        Message { encoding: self.encoding, length: self.length, data: self.data@ }
    }
}

/// What decoding a symbol gives.
///
/// The mask is read off the format row. The data modules, walked in zig-zag
/// order and with the mask removed, spell four bits of encoding, eight bits
/// of length and then the payload, each most significant bit first. Only
/// byte and alphanumeric mode are surfaced, and the payload must be whole.
pub open spec fn decoded_message(code: Code, img: image::DynamicImage) -> Result<
    Message,
    DecodeError,
> {
    match format_mask_id(code.grid(), img) {
        None => Err(DecodeError::Truncated),
        Some(id) => match mask_for(id) {
            None => Err(DecodeError::UnsupportedMask),
            Some(mask) => {
                let bits = bits_of(walk_outputs(code, img, mask));
                let encoding = bits_value(bits.take(4)) as u8;
                let length = bits_value(bits.skip(4).take(8)) as u8;
                if bits.len() < 12 {
                    Err(short_walk_error(code))
                } else if encoding != ENCODING_BYTE && encoding != ENCODING_ALPHANUMERIC {
                    Err(DecodeError::UnsupportedEncoding)
                } else if bits.len() < 12 + 8 * length {
                    Err(short_walk_error(code))
                } else {
                    Ok(Message { encoding, length, data: bytes_of(bits.skip(12), length as nat) })
                }
            },
        },
    }
}

/// Decodes a located symbol: reads the mask, walks the data modules and
/// assembles the header and the payload bytes.
pub fn decode(code: &Code, img: &image::DynamicImage) -> (decoded: Result<Decoded, DecodeError>)
    requires
        code.grid().fits(*img),
    ensures
        match decoded {
            Ok(decoded) => decoded_message(*code, *img) == Ok::<Message, DecodeError>(decoded@),
            Err(e) => decoded_message(*code, *img) == Err::<Message, DecodeError>(e),
        },
{
    let mut bytes = match code.data_iter(img) {
        Ok(bytes) => bytes,
        Err(e) => {
            return Err(e);
        },
    };
    let encoding = bytes.encoding();
    let length = bytes.length();
    if encoding != ENCODING_BYTE && encoding != ENCODING_ALPHANUMERIC {
        return Err(DecodeError::UnsupportedEncoding);
    }
    match bytes.collect() {
        Ok(data) => Ok(Decoded { encoding, length, data }),
        Err(e) => Err(e),
    }
}

} // verus!
