//! Assembly of the data bits into the encoding, the length and the payload
//! bytes.

use vstd::prelude::*;
use vstd::arithmetic::power2::{lemma2_to64, lemma_pow2_unfold, pow2};
use crate::error::DecodeError;
use crate::traversal::{DataBitIter, Output};
use crate::util::IteratorExt;

verus! {

/// Number of bits of the encoding nibble.
pub const NUM_ENCODING_BITS: usize = 4;

/// Number of bits of the length field.
pub const NUM_LENGTH_BITS: usize = 8;

/// The data bits of a sequence of modules.
pub open spec fn bits_of(outputs: Seq<Output>) -> Seq<bool> {
    outputs.map_values(|output: Output| output.bit)
}

/// The number that a sequence of bits spells, most significant bit first.
pub open spec fn bits_value(bits: Seq<bool>) -> nat
    decreases bits.len(),
{
    if bits.len() == 0 {
        0
    } else {
        2 * bits_value(bits.drop_last()) + if bits.last() {
            1nat
        } else {
            0nat
        }
    }
}

/// Byte number `k` of a stream of bits: the value of its bits `8k..8k+8`.
pub open spec fn byte_at(bits: Seq<bool>, k: int) -> u8 {
    bits_value(bits.subrange(8 * k, 8 * k + 8)) as u8
}

/// The first `count` bytes of a stream of bits.
pub open spec fn bytes_of(bits: Seq<bool>, count: nat) -> Seq<u8> {
    Seq::new(count, |k: int| byte_at(bits, k))
}

/// The value of `n` bits is below 2 to the power `n`.
pub proof fn lemma_bits_value_bound(bits: Seq<bool>)
    ensures
        bits_value(bits) < pow2(bits.len()),
    decreases bits.len(),
{
    if bits.len() == 0 {
        lemma2_to64();
    } else {
        lemma_bits_value_bound(bits.drop_last());
        lemma_pow2_unfold(bits.len());
    }
}

/// Packs up to eight modules into a number, most significant bit first.
fn pack_bits(outputs: &Vec<Output>) -> (value: u8)
    requires
        outputs@.len() <= 8,
    ensures
        value == bits_value(bits_of(outputs@)),
{
    let mut value: u8 = 0;
    let mut i: usize = 0;
    let ghost bits = bits_of(outputs@);
    assert(bits.take(0) =~= Seq::<bool>::empty());
    while i < outputs.len()
        invariant
            i <= outputs@.len() <= 8,
            bits == bits_of(outputs@),
            value == bits_value(bits.take(i as int)),
        decreases outputs@.len() - i,
    {
        proof {
            let next = bits.take(i + 1);
            assert(next.drop_last() =~= bits.take(i as int));
            assert(next.last() == outputs@[i as int].bit);
            lemma_bits_value_bound(next);
            lemma_bits_value_bound(bits.take(8));
            lemma2_to64();
            if i + 1 < 8 {
                vstd::arithmetic::power2::lemma_pow2_strictly_increases((i + 1) as nat, 8);
            }
        }
        value = value * 2 + if outputs[i].bit {
            1
        } else {
            0
        };
        i += 1;
    }
    assert(bits.take(outputs@.len() as int) =~= bits);
    value
}

/// The payload of a symbol, byte by byte, behind its header: the encoding
/// nibble and the length in bytes.
pub struct DataByteIter<'a> {
    iter: DataBitIter<'a>,
    encoding: u8,
    length: u8,
    num_bytes_read: u8,
}

impl<'a> DataByteIter<'a> {
    /// The bits that the walk has still to hand out.
    pub closed spec fn bits(&self) -> Seq<bool> {
        bits_of(self.iter.remaining())
    }

    /// The error in which the walk ends behind its bits, if it does.
    pub closed spec fn walk_failure(&self) -> Option<DecodeError> {
        self.iter.failure()
    }

    /// Number of payload bytes handed out so far.
    pub closed spec fn bytes_read(&self) -> nat {
        self.num_bytes_read as nat
    }

    /// The encoding nibble of the header.
    pub closed spec fn header_encoding(&self) -> u8 {
        self.encoding
    }

    /// The length in bytes that the header gives.
    pub closed spec fn header_length(&self) -> u8 {
        self.length
    }

    /// Number of payload bytes that the header still promises.
    pub open spec fn bytes_left(&self) -> nat {
        if self.header_length() > self.bytes_read() {
            (self.header_length() - self.bytes_read()) as nat
        } else {
            0
        }
    }

    /// The encoding nibble of the header.
    pub fn encoding(&self) -> (encoding: u8)
        ensures
            encoding == self.header_encoding(),
    {
        self.encoding
    }

    /// The length in bytes that the header gives.
    pub fn length(&self) -> (length: u8)
        ensures
            length == self.header_length(),
    {
        self.length
    }

    /// Reads the header off a walk: four bits of encoding, then eight bits of
    /// length, each most significant bit first. Where the walk holds fewer
    /// than twelve bits this fails: with the walk's own error if it ends in
    /// one, else with `Truncated`.
    pub fn new(iter: DataBitIter<'a>) -> (bytes: Result<Self, DecodeError>)
        requires
            iter.wf(),
        ensures
            match bytes {
                Ok(bytes) => {
                    let bits = bits_of(iter.remaining());
                    &&& bits.len() >= 12
                    &&& bytes.wf()
                    &&& bytes.header_encoding() == bits_value(bits.take(4))
                    &&& bytes.header_length() == bits_value(bits.skip(4).take(8))
                    &&& bytes.bits() == bits.skip(12)
                    &&& bytes.walk_failure() == iter.failure()
                    &&& bytes.bytes_read() == 0
                },
                Err(e) => {
                    &&& iter.remaining().len() < 12
                    &&& e == match iter.failure() {
                        Some(failure) => failure,
                        None => DecodeError::Truncated,
                    }
                },
            },
    {
        let mut iter = iter;
        let ghost all = iter.remaining();
        let encoding = match iter.take_or_err(NUM_ENCODING_BITS) {
            Ok(items) => {
                assert(bits_of(all.take(4)) =~= bits_of(all).take(4));
                pack_bits(&items)
            },
            Err(e) => {
                return Err(e);
            },
        };
        let length = match iter.take_or_err(NUM_LENGTH_BITS) {
            Ok(items) => {
                assert(bits_of(all.skip(4).take(8)) =~= bits_of(all).skip(4).take(8));
                pack_bits(&items)
            },
            Err(e) => {
                return Err(e);
            },
        };
        assert(bits_of(all.skip(4).skip(8)) =~= bits_of(all).skip(12));
        Ok(Self { iter, encoding, length, num_bytes_read: 0 })
    }
}

impl<'a> IteratorExt for DataByteIter<'a> {
    type Item = u8;

    /// The walk is well formed.
    closed spec fn wf(&self) -> bool {
        self.iter.wf()
    }

    /// The payload bytes that are still to come: as many as the header
    /// promises and the walk's bits can fill.
    open spec fn remaining(&self) -> Seq<u8> {
        bytes_of(
            self.bits(),
            if self.bits().len() / 8 < self.bytes_left() {
                self.bits().len() / 8
            } else {
                self.bytes_left()
            },
        )
    }

    /// The payload fails where the walk cannot fill the promised bytes: with
    /// the walk's own error if it ends in one, else with `Truncated`.
    open spec fn failure(&self) -> Option<DecodeError> {
        if self.bits().len() / 8 >= self.bytes_left() {
            None
        } else {
            match self.walk_failure() {
                Some(failure) => Some(failure),
                None => Some(DecodeError::Truncated),
            }
        }
    }

    /// Hands out the next payload byte, packed from eight bits most
    /// significant bit first; `Ok(None)` once as many bytes as the header
    /// promises have been handed out.
    fn next(&mut self) -> (item: Result<Option<u8>, DecodeError>)
        ensures
            final(self).header_encoding() == old(self).header_encoding(),
            final(self).header_length() == old(self).header_length(),
    {
        if self.num_bytes_read >= self.length {
            return Ok(None);
        }
        let ghost before = *self;
        let ghost bits = self.bits();
        match self.iter.take_or_err(8) {
            Ok(items) => {
                let next_byte = pack_bits(&items);
                self.num_bytes_read += 1;
                proof {
                    assert(bits_of(before.iter.remaining().take(8)) =~= bits.subrange(0, 8));
                    assert(self.bits() =~= bits.skip(8));
                    assert forall|k: int| 0 <= k && 8 * k + 16 <= bits.len() implies #[trigger] byte_at(
                        bits.skip(8),
                        k,
                    ) == byte_at(bits, k + 1) by {
                        assert(bits.skip(8).subrange(8 * k, 8 * k + 8) =~= bits.subrange(
                            8 * (k + 1),
                            8 * (k + 1) + 8,
                        ));
                    }
                    assert(self.remaining() =~= before.remaining().skip(1));
                }
                Ok(Some(next_byte))
            },
            Err(e) => {
                self.num_bytes_read = self.length;
                Err(e)
            },
        }
    }
}

} // verus!
