//! Plain binary serialization of fixed-size values.
//!
//! The wire format of this crate is little-endian throughout: an unsigned
//! integer is written as its bytes from least significant to most
//! significant. The spec functions [`u32_le`] and [`u64_le`] define that
//! encoding mathematically; the executable encoders and decoders are proved
//! against them.
use vstd::prelude::*;

verus! {

/// Serialization failure.
#[derive(Clone, Copy, Debug, PartialEq, Eq, Structural)]
pub enum Error {
    /// Not enough room in the destination.
    NoSpace,
    /// The source ends before the value is complete.
    MissingData,
    /// The bytes are not a valid encoding of the expected type.
    InvalidData,
}

/// Byte-order selector of the wire protocol. This implementation always
/// writes and reads the little-endian wire order, whichever selector is
/// passed.
#[derive(Clone, Copy, Debug, PartialEq, Eq, Structural)]
pub enum Endianness {
    Native,
    Little,
}

/// The four little-endian bytes of a 32-bit value.
pub open spec fn u32_le(x: u32) -> Seq<u8> {
    seq![
        (x % 256) as u8,
        ((x / 256) % 256) as u8,
        ((x / 65536) % 256) as u8,
        ((x / 16777216) % 256) as u8,
    ]
}

/// The eight little-endian bytes of a 64-bit value.
pub open spec fn u64_le(x: u64) -> Seq<u8> {
    seq![
        (x % 256) as u8,
        ((x / 256) % 256) as u8,
        ((x / 65536) % 256) as u8,
        ((x / 16777216) % 256) as u8,
        ((x / 4294967296) % 256) as u8,
        ((x / 1099511627776) % 256) as u8,
        ((x / 281474976710656) % 256) as u8,
        ((x / 72057594037927936) % 256) as u8,
    ]
}

/// Recombining the four little-endian bytes of a 32-bit value gives that
/// value back, and every byte quadruple is the encoding of its
/// recombination: the encoding is a bijection.
pub proof fn lemma_u32_le_bijective(b0: u8, b1: u8, b2: u8, b3: u8)
    ensures
        u32_le((b0 + b1 * 256 + b2 * 65536 + b3 * 16777216) as u32) =~= seq![b0, b1, b2, b3],
{
    let x: u32 = (b0 + b1 * 256 + b2 * 65536 + b3 * 16777216) as u32;
    assert(x % 256 == b0 && (x / 256) % 256 == b1 && (x / 65536) % 256 == b2 && (x / 16777216)
        % 256 == b3) by (bit_vector)
        requires
            x == b0 + b1 * 256 + b2 * 65536 + b3 * 16777216,
    ;
}

/// The same for 64-bit values and byte octuples.
pub proof fn lemma_u64_le_bijective(b0: u8, b1: u8, b2: u8, b3: u8, b4: u8, b5: u8, b6: u8, b7: u8)
    ensures
        u64_le(
            (b0 + b1 * 256 + b2 * 65536 + b3 * 16777216 + b4 * 4294967296 + b5 * 1099511627776
                + b6 * 281474976710656 + b7 * 72057594037927936) as u64,
        ) =~= seq![b0, b1, b2, b3, b4, b5, b6, b7],
{
    let x: u64 = (b0 + b1 * 256 + b2 * 65536 + b3 * 16777216 + b4 * 4294967296 + b5
        * 1099511627776 + b6 * 281474976710656 + b7 * 72057594037927936) as u64;
    assert(x % 256 == b0 && (x / 256) % 256 == b1 && (x / 65536) % 256 == b2 && (x / 16777216)
        % 256 == b3 && (x / 4294967296) % 256 == b4 && (x / 1099511627776) % 256 == b5 && (x
        / 281474976710656) % 256 == b6 && (x / 72057594037927936) % 256 == b7) by (bit_vector)
        requires
            x == b0 + b1 * 256 + b2 * 65536 + b3 * 16777216 + b4 * 4294967296 + b5 * 1099511627776
                + b6 * 281474976710656 + b7 * 72057594037927936,
    ;
}

/// Appends the little-endian bytes of `x`.
pub fn u32_to_le(x: u32, out: &mut Vec<u8>)
    ensures
        final(out)@ =~= old(out)@ + u32_le(x),
{
    out.push((x % 256) as u8);
    out.push(((x / 256) % 256) as u8);
    out.push(((x / 65536) % 256) as u8);
    out.push(((x / 16777216) % 256) as u8);
}

/// Appends the little-endian bytes of `x`.
pub fn u64_to_le(x: u64, out: &mut Vec<u8>)
    ensures
        final(out)@ =~= old(out)@ + u64_le(x),
{
    out.push((x % 256) as u8);
    out.push(((x / 256) % 256) as u8);
    out.push(((x / 65536) % 256) as u8);
    out.push(((x / 16777216) % 256) as u8);
    out.push(((x / 4294967296) % 256) as u8);
    out.push(((x / 1099511627776) % 256) as u8);
    out.push(((x / 281474976710656) % 256) as u8);
    out.push(((x / 72057594037927936) % 256) as u8);
}

/// Reads the 32-bit value whose little-endian bytes stand at `pos`.
pub fn u32_from_le(bytes: &Vec<u8>, pos: usize) -> (r: u32)
    requires
        pos + 4 <= bytes@.len(),
    ensures
        u32_le(r) =~= bytes@.subrange(pos as int, pos + 4),
{
    let n: usize = bytes.len();
    let b0: u32 = bytes[pos] as u32;
    let b1: u32 = bytes[pos + 1] as u32;
    let b2: u32 = bytes[pos + 2] as u32;
    let b3: u32 = bytes[pos + 3] as u32;
    let x: u32 = b0 + b1 * 256 + b2 * 65536 + b3 * 16777216;
    proof {
        lemma_u32_le_bijective(
            bytes@[pos as int],
            bytes@[pos + 1],
            bytes@[pos + 2],
            bytes@[pos + 3],
        );
    }
    x
}

/// Reads the 64-bit value whose little-endian bytes stand at `pos`.
pub fn u64_from_le(bytes: &Vec<u8>, pos: usize) -> (r: u64)
    requires
        pos + 8 <= bytes@.len(),
    ensures
        u64_le(r) =~= bytes@.subrange(pos as int, pos + 8),
{
    let n: usize = bytes.len();
    let b0: u64 = bytes[pos] as u64;
    let b1: u64 = bytes[pos + 1] as u64;
    let b2: u64 = bytes[pos + 2] as u64;
    let b3: u64 = bytes[pos + 3] as u64;
    let b4: u64 = bytes[pos + 4] as u64;
    let b5: u64 = bytes[pos + 5] as u64;
    let b6: u64 = bytes[pos + 6] as u64;
    let b7: u64 = bytes[pos + 7] as u64;
    let lo: u64 = b0 + b1 * 256 + b2 * 65536 + b3 * 16777216;
    let hi: u64 = b4 + b5 * 256 + b6 * 65536 + b7 * 16777216;
    let x: u64 = lo + hi * 4294967296;
    proof {
        lemma_u64_le_bijective(
            bytes@[pos as int],
            bytes@[pos + 1],
            bytes@[pos + 2],
            bytes@[pos + 3],
            bytes@[pos + 4],
            bytes@[pos + 5],
            bytes@[pos + 6],
            bytes@[pos + 7],
        );
        assert(x == bytes@[pos as int] + bytes@[pos + 1] * 256 + bytes@[pos + 2] * 65536 + bytes@[
            pos + 3
        ] * 16777216 + bytes@[pos + 4] * 4294967296 + bytes@[pos + 5] * 1099511627776 + bytes@[pos
            + 6] * 281474976710656 + bytes@[pos + 7] * 72057594037927936);
    }
    x
}

/// Value-level conversion from a little-endian transported value. The
/// library models integers as values, not byte patterns, and performs all
/// byte-order work at the byte boundary, so this conversion preserves the
/// value.
pub trait FromLe: Sized {
    fn from_le(x: Self) -> (r: Self)
        ensures
            r == x,
    ;
}

/// Value-level conversion into a little-endian transported value; the
/// counterpart of [`FromLe`].
pub trait IntoLe: Sized {
    fn into_le(self) -> (r: Self)
        ensures
            r == self,
    ;
}

impl FromLe for u8 {
    fn from_le(x: u8) -> u8 {
        x
    }
}

impl FromLe for u16 {
    fn from_le(x: u16) -> u16 {
        x
    }
}

impl FromLe for u32 {
    fn from_le(x: u32) -> u32 {
        x
    }
}

impl FromLe for u64 {
    fn from_le(x: u64) -> u64 {
        x
    }
}

impl IntoLe for u8 {
    fn into_le(self) -> u8 {
        self
    }
}

impl IntoLe for u16 {
    fn into_le(self) -> u16 {
        self
    }
}

impl IntoLe for u32 {
    fn into_le(self) -> u32 {
        self
    }
}

impl IntoLe for u64 {
    fn into_le(self) -> u64 {
        self
    }
}

/// A type with a fixed-size byte encoding.
pub trait SizedAsBytes {
    /// Size of the encoding in bytes.
    spec fn spec_num_bytes() -> nat;

    fn num_bytes() -> (n: usize)
        ensures
            n == Self::spec_num_bytes(),
    ;
}

/// Marker: every byte pattern of the right length decodes to a value of
/// this type without further validation.
pub trait ValidAsBytes {

}

/// A value-level validity test, run after decoding.
pub trait Validate: Sized {
    /// What the executable check decides.
    spec fn spec_valid(&self) -> bool;

    fn validate(v: &Self, endianness: Endianness) -> (r: bool)
        ensures
            r == v.spec_valid(),
    ;
}

/// Types that write themselves as a fixed-size little-endian byte string.
pub trait ToBytes: SizedAsBytes + Sized {
    /// The encoding of this value.
    spec fn le_bytes(self) -> Seq<u8>;

    fn to_bytes(self, out: &mut Vec<u8>, endianness: Endianness)
        ensures
            final(out)@ =~= old(out)@ + self.le_bytes(),
            self.le_bytes().len() == Self::spec_num_bytes(),
    ;
}

/// Types that read themselves back from their fixed-size encoding.
///
/// `from_bytes` fails with `MissingData` exactly when fewer than
/// `spec_num_bytes` bytes remain at `pos`; otherwise it fails with
/// `InvalidData` exactly when the window is no encoding of a valid value,
/// and on success returns the value whose encoding is the window, together
/// with the position after it.
pub trait FromBytes: ToBytes + Validate {
    fn from_bytes(bytes: &Vec<u8>, pos: usize, endianness: Endianness) -> (r: Result<
        (Self, usize),
        Error,
    >)
        ensures
            pos + Self::spec_num_bytes() > bytes@.len() ==> r == Err::<(Self, usize), Error>(
                Error::MissingData,
            ),
            pos + Self::spec_num_bytes() <= bytes@.len() ==> match r {
                Ok((v, next)) => v.le_bytes() == bytes@.subrange(
                    pos as int,
                    pos + Self::spec_num_bytes(),
                ) && next == pos + Self::spec_num_bytes() && v.spec_valid(),
                Err(e) => e == Error::InvalidData && (forall|v: Self|
                    #[trigger] v.le_bytes() == bytes@.subrange(
                        pos as int,
                        pos + Self::spec_num_bytes(),
                    ) ==> !v.spec_valid()),
            },
    ;
}

impl SizedAsBytes for u32 {
    open spec fn spec_num_bytes() -> nat {
        4
    }

    fn num_bytes() -> usize {
        4
    }
}

impl ValidAsBytes for u32 {

}

impl Validate for u32 {
    open spec fn spec_valid(&self) -> bool {
        true
    }

    fn validate(v: &u32, endianness: Endianness) -> bool {
        true
    }
}

impl ToBytes for u32 {
    open spec fn le_bytes(self) -> Seq<u8> {
        u32_le(self)
    }

    fn to_bytes(self, out: &mut Vec<u8>, endianness: Endianness) {
        u32_to_le(self, out);
    }
}

impl FromBytes for u32 {
    fn from_bytes(bytes: &Vec<u8>, pos: usize, endianness: Endianness) -> Result<
        (u32, usize),
        Error,
    > {
        if pos >= bytes.len() || bytes.len() - pos < 4 {
            Err(Error::MissingData)
        } else {
            let v: u32 = u32_from_le(bytes, pos);
            Ok((v, pos + 4))
        }
    }
}

impl SizedAsBytes for u64 {
    open spec fn spec_num_bytes() -> nat {
        8
    }

    fn num_bytes() -> usize {
        8
    }
}

impl ValidAsBytes for u64 {

}

impl Validate for u64 {
    open spec fn spec_valid(&self) -> bool {
        true
    }

    fn validate(v: &u64, endianness: Endianness) -> bool {
        true
    }
}

impl ToBytes for u64 {
    open spec fn le_bytes(self) -> Seq<u8> {
        u64_le(self)
    }

    fn to_bytes(self, out: &mut Vec<u8>, endianness: Endianness) {
        u64_to_le(self, out);
    }
}

impl FromBytes for u64 {
    fn from_bytes(bytes: &Vec<u8>, pos: usize, endianness: Endianness) -> Result<
        (u64, usize),
        Error,
    > {
        if pos >= bytes.len() || bytes.len() - pos < 8 {
            Err(Error::MissingData)
        } else {
            let v: u64 = u64_from_le(bytes, pos);
            Ok((v, pos + 8))
        }
    }
}

} // verus!
