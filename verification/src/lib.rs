//! Reading differently-sized integers out of a byte buffer, and rendering
//! them as text in a caller-chosen format.
//!
//! A [`Context`] pairs a borrowed byte buffer with a read position; a
//! [`SizedDefinition`] names the shape (width, signedness, endianness) of a
//! number stored at that position; a [`SizedDisplay`] picks the textual form
//! (hexadecimal, decimal, octal, binary, or scientific notation) together
//! with its options. Reading and rendering are independent, so one
//! definition/display pair can be stamped onto many offsets.
//!
//! The two float shapes are carried as tags so that conversions reject them
//! exactly; their decimal and scientific text comes from the platform's
//! float formatter, which lies outside what this library models, so
//! [`SizedDefinition::to_string`] takes only the display modes it can
//! render or reject itself.

use vstd::prelude::*;

pub mod context;
pub mod display_options;
pub mod render;
pub mod sized_integer;

pub use context::Context;
pub use context::Endian;
pub use context::ReadError;
pub use display_options::BinaryOptions;
pub use display_options::HexOptions;
pub use display_options::ScientificOptions;
pub use sized_integer::IntegerDisplay;
pub use sized_integer::SizedInteger;

use context::bytes_to_nat;
use context::signed_of;

verus! {

/// The error `to_u64` and `to_i64` can end in.
#[derive(Debug, Clone, Copy, PartialEq, Eq, Structural)]
pub enum ConversionError {
    /// The shape's signedness or width makes the 64-bit target lossy or
    /// wrong: a signed shape never converts to `u64`, an unsigned one
    /// never to `i64`, and the 128-bit and float shapes convert to
    /// neither.
    NotRepresentable,
    /// Fewer bytes remain at the read position than the shape needs.
    UnexpectedEnd,
}

/// The error `to_string` can end in.
#[derive(Debug, Clone, Copy, PartialEq, Eq, Structural)]
pub enum DisplayError {
    /// The display mode does not apply to the shape: hexadecimal, octal
    /// and binary text is defined by a bit pattern, which a float value
    /// does not expose.
    UnsupportedForType,
    /// Fewer bytes remain at the read position than the shape needs.
    UnexpectedEnd,
}

/// A display mode, with its options.
#[derive(Debug, Clone, Copy)]
pub enum SizedDisplay {
    /// Hexadecimal text of the bit pattern.
    Hex(HexOptions),
    /// Decimal text of the value, signed per the shape.
    Decimal,
    /// Octal text of the bit pattern.
    Octal,
    /// Binary text of the bit pattern.
    Binary(BinaryOptions),
    /// Scientific / exponential text of the value.
    Scientific(ScientificOptions),
}

/// The shape of a number stored in a buffer: width, signedness, and byte
/// order where more than one byte is read.
#[derive(Debug, Clone, Copy, PartialEq, Eq, Structural)]
pub enum SizedDefinition {
    /// Unsigned 8-bit integer.
    U8,
    /// Unsigned 16-bit integer.
    U16(Endian),
    /// Unsigned 32-bit integer.
    U32(Endian),
    /// Unsigned 64-bit integer.
    U64(Endian),
    /// Unsigned 128-bit integer.
    U128(Endian),
    /// Signed 8-bit integer.
    I8,
    /// Signed 16-bit integer.
    I16(Endian),
    /// Signed 32-bit integer.
    I32(Endian),
    /// Signed 64-bit integer.
    I64(Endian),
    /// Signed 128-bit integer.
    I128(Endian),
    /// 32-bit (single precision) floating point.
    F32(Endian),
    /// 64-bit (double precision) floating point.
    F64(Endian),
}

impl SizedDefinition {
    /// The byte width of the shape.
    pub open spec fn spec_size(self) -> nat {
        match self {
            SizedDefinition::U8 => 1,
            SizedDefinition::U16(_) => 2,
            SizedDefinition::U32(_) => 4,
            SizedDefinition::U64(_) => 8,
            SizedDefinition::U128(_) => 16,
            SizedDefinition::I8 => 1,
            SizedDefinition::I16(_) => 2,
            SizedDefinition::I32(_) => 4,
            SizedDefinition::I64(_) => 8,
            SizedDefinition::I128(_) => 16,
            SizedDefinition::F32(_) => 4,
            SizedDefinition::F64(_) => 8,
        }
    }

    /// The byte order reads use. A single byte has no order; the
    /// one-byte shapes read the same bytes whichever value stands here.
    pub open spec fn spec_endian(self) -> Endian {
        match self {
            SizedDefinition::U8 => Endian::Big,
            SizedDefinition::U16(e) => e,
            SizedDefinition::U32(e) => e,
            SizedDefinition::U64(e) => e,
            SizedDefinition::U128(e) => e,
            SizedDefinition::I8 => Endian::Big,
            SizedDefinition::I16(e) => e,
            SizedDefinition::I32(e) => e,
            SizedDefinition::I64(e) => e,
            SizedDefinition::I128(e) => e,
            SizedDefinition::F32(e) => e,
            SizedDefinition::F64(e) => e,
        }
    }

    /// True of the two float shapes.
    pub open spec fn spec_is_float(self) -> bool {
        match self {
            SizedDefinition::F32(_) => true,
            SizedDefinition::F64(_) => true,
            _ => false,
        }
    }

    /// True of the five signed integer shapes.
    pub open spec fn spec_is_signed(self) -> bool {
        match self {
            SizedDefinition::I8 => true,
            SizedDefinition::I16(_) => true,
            SizedDefinition::I32(_) => true,
            SizedDefinition::I64(_) => true,
            SizedDefinition::I128(_) => true,
            _ => false,
        }
    }

    /// True of the shapes `to_u64` converts: unsigned, at most 64 bits.
    pub open spec fn spec_fits_u64(self) -> bool {
        match self {
            SizedDefinition::U8 => true,
            SizedDefinition::U16(_) => true,
            SizedDefinition::U32(_) => true,
            SizedDefinition::U64(_) => true,
            _ => false,
        }
    }

    /// True of the shapes `to_i64` converts: signed, at most 64 bits.
    pub open spec fn spec_fits_i64(self) -> bool {
        match self {
            SizedDefinition::I8 => true,
            SizedDefinition::I16(_) => true,
            SizedDefinition::I32(_) => true,
            SizedDefinition::I64(_) => true,
            _ => false,
        }
    }

    /// The unsigned bit pattern stored at the context's position.
    pub open spec fn spec_bits_at(self, c: Context<'_>) -> nat
        recommends
            c.spec_fits(self.spec_size()),
    {
        bytes_to_nat(c.spec_segment(self.spec_size()), self.spec_endian())
    }

    /// The mathematical value stored at the context's position: the bit
    /// pattern, read under two's complement for the signed shapes.
    pub open spec fn spec_value_at(self, c: Context<'_>) -> int
        recommends
            c.spec_fits(self.spec_size()),
            !self.spec_is_float(),
    {
        if self.spec_is_signed() {
            signed_of(self.spec_bits_at(c), self.spec_size())
        } else {
            self.spec_bits_at(c) as int
        }
    }

    /// The text `to_string` renders for a non-float shape.
    pub open spec fn spec_rendered_at(self, c: Context<'_>, display: SizedDisplay) -> Seq<char>
        recommends
            c.spec_fits(self.spec_size()),
            !self.spec_is_float(),
    {
        match display {
            SizedDisplay::Hex(o) => render::spec_hex(self.spec_bits_at(c), self.spec_size(), o),
            SizedDisplay::Decimal => render::spec_decimal(self.spec_value_at(c)),
            SizedDisplay::Octal => render::spec_octal(self.spec_bits_at(c)),
            SizedDisplay::Binary(o) => render::spec_binary(
                self.spec_bits_at(c),
                self.spec_size(),
                o,
            ),
            SizedDisplay::Scientific(o) => render::spec_scientific(
                self.spec_value_at(c),
                o.uppercase,
            ),
        }
    }

    /// The byte width of the shape.
    pub fn size(self) -> (r: u64)
        ensures
            r == self.spec_size(),
    {
        match self {
            SizedDefinition::U8 => 1,
            SizedDefinition::U16(_) => 2,
            SizedDefinition::U32(_) => 4,
            SizedDefinition::U64(_) => 8,
            SizedDefinition::U128(_) => 16,
            SizedDefinition::I8 => 1,
            SizedDefinition::I16(_) => 2,
            SizedDefinition::I32(_) => 4,
            SizedDefinition::I64(_) => 8,
            SizedDefinition::I128(_) => 16,
            SizedDefinition::F32(_) => 4,
            SizedDefinition::F64(_) => 8,
        }
    }

    /// True of the two float shapes.
    pub fn is_float(self) -> (b: bool)
        ensures
            b == self.spec_is_float(),
    {
        match self {
            SizedDefinition::F32(_) => true,
            SizedDefinition::F64(_) => true,
            _ => false,
        }
    }

    /// The byte width as a `usize`, for indexing.
    fn size_usize(self) -> (r: usize)
        ensures
            r == self.spec_size(),
    {
        match self {
            SizedDefinition::U8 => 1,
            SizedDefinition::U16(_) => 2,
            SizedDefinition::U32(_) => 4,
            SizedDefinition::U64(_) => 8,
            SizedDefinition::U128(_) => 16,
            SizedDefinition::I8 => 1,
            SizedDefinition::I16(_) => 2,
            SizedDefinition::I32(_) => 4,
            SizedDefinition::I64(_) => 8,
            SizedDefinition::I128(_) => 16,
            SizedDefinition::F32(_) => 4,
            SizedDefinition::F64(_) => 8,
        }
    }

    /// The byte order reads use.
    fn endian(self) -> (e: Endian)
        ensures
            e == self.spec_endian(),
    {
        match self {
            SizedDefinition::U8 => Endian::Big,
            SizedDefinition::U16(e) => e,
            SizedDefinition::U32(e) => e,
            SizedDefinition::U64(e) => e,
            SizedDefinition::U128(e) => e,
            SizedDefinition::I8 => Endian::Big,
            SizedDefinition::I16(e) => e,
            SizedDefinition::I32(e) => e,
            SizedDefinition::I64(e) => e,
            SizedDefinition::I128(e) => e,
            SizedDefinition::F32(e) => e,
            SizedDefinition::F64(e) => e,
        }
    }

    /// Read the value of this shape at the context's position and render
    /// it under `display`.
    ///
    /// A read past the end of the buffer fails with `UnexpectedEnd`
    /// before the mode is examined. Hexadecimal, octal and binary on a
    /// float shape fail with `UnsupportedForType`. Decimal and
    /// scientific text of a float value comes from the platform's float
    /// formatter, which lies outside what this library models, so those
    /// combinations are not taken.
    pub fn to_string(self, context: &Context<'_>, display: SizedDisplay) -> (r: Result<
        String,
        DisplayError,
    >)
        requires
            self.spec_is_float() ==> !(display is Decimal || display is Scientific),
        ensures
            match r {
                Ok(s) => {
                    &&& !self.spec_is_float()
                    &&& context.spec_fits(self.spec_size())
                    &&& s@ == self.spec_rendered_at(*context, display)
                },
                Err(e) => {
                    &&& (e == DisplayError::UnexpectedEnd <==> !context.spec_fits(
                        self.spec_size(),
                    ))
                    &&& (e == DisplayError::UnsupportedForType <==> context.spec_fits(
                        self.spec_size(),
                    ) && self.spec_is_float())
                },
            },
    {
        if self.is_float() {
            match context.read_unsigned(self.size_usize(), self.endian()) {
                Ok(_) => Err(DisplayError::UnsupportedForType),
                Err(_) => Err(DisplayError::UnexpectedEnd),
            }
        } else {
            match SizedInteger::read(context, self) {
                Ok(v) => match display {
                    SizedDisplay::Hex(o) => Ok(v.to_string(IntegerDisplay::Hex(o))),
                    SizedDisplay::Decimal => Ok(v.to_string(IntegerDisplay::Decimal)),
                    SizedDisplay::Octal => Ok(v.to_string(IntegerDisplay::Octal)),
                    SizedDisplay::Binary(o) => Ok(v.to_string(IntegerDisplay::Binary(o))),
                    SizedDisplay::Scientific(o) => Ok(v.to_string(IntegerDisplay::Scientific(o))),
                },
                Err(_) => Err(DisplayError::UnexpectedEnd),
            }
        }
    }

    /// Read the value of this shape and widen it to `u64`.
    ///
    /// Only the unsigned shapes of at most 64 bits convert; every other
    /// shape fails with `NotRepresentable` whatever bytes are present. A
    /// signed bit pattern is never reinterpreted as unsigned.
    pub fn to_u64(self, context: &Context<'_>) -> (r: Result<u64, ConversionError>)
        ensures
            match r {
                Ok(v) => {
                    &&& self.spec_fits_u64()
                    &&& context.spec_fits(self.spec_size())
                    &&& v == self.spec_value_at(*context)
                },
                Err(e) => {
                    &&& (e == ConversionError::NotRepresentable <==> !self.spec_fits_u64())
                    &&& (e == ConversionError::UnexpectedEnd <==> self.spec_fits_u64()
                        && !context.spec_fits(self.spec_size()))
                },
            },
    {
        match self {
            SizedDefinition::U8 => {
                match context.read_u8() {
                    Ok(v) => {
                        proof {
                            context::lemma_single_byte(context.spec_segment(1), Endian::Big);
                        }
                        Ok(v as u64)
                    },
                    Err(_) => Err(ConversionError::UnexpectedEnd),
                }
            },
            SizedDefinition::U16(endian) => {
                match context.read_u16(endian) {
                    Ok(v) => Ok(v as u64),
                    Err(_) => Err(ConversionError::UnexpectedEnd),
                }
            },
            SizedDefinition::U32(endian) => {
                match context.read_u32(endian) {
                    Ok(v) => Ok(v as u64),
                    Err(_) => Err(ConversionError::UnexpectedEnd),
                }
            },
            SizedDefinition::U64(endian) => {
                match context.read_u64(endian) {
                    Ok(v) => Ok(v),
                    Err(_) => Err(ConversionError::UnexpectedEnd),
                }
            },
            _ => Err(ConversionError::NotRepresentable),
        }
    }

    /// Read the value of this shape and sign-extend it to `i64`.
    ///
    /// Only the signed shapes of at most 64 bits convert; every other
    /// shape fails with `NotRepresentable` whatever bytes are present. An
    /// unsigned value is never reinterpreted as signed.
    pub fn to_i64(self, context: &Context<'_>) -> (r: Result<i64, ConversionError>)
        ensures
            match r {
                Ok(v) => {
                    &&& self.spec_fits_i64()
                    &&& context.spec_fits(self.spec_size())
                    &&& v == self.spec_value_at(*context)
                },
                Err(e) => {
                    &&& (e == ConversionError::NotRepresentable <==> !self.spec_fits_i64())
                    &&& (e == ConversionError::UnexpectedEnd <==> self.spec_fits_i64()
                        && !context.spec_fits(self.spec_size()))
                },
            },
    {
        match self {
            SizedDefinition::I8 => {
                match context.read_i8() {
                    Ok(v) => {
                        proof {
                            context::lemma_single_byte(context.spec_segment(1), Endian::Big);
                        }
                        Ok(v as i64)
                    },
                    Err(_) => Err(ConversionError::UnexpectedEnd),
                }
            },
            SizedDefinition::I16(endian) => {
                match context.read_i16(endian) {
                    Ok(v) => Ok(v as i64),
                    Err(_) => Err(ConversionError::UnexpectedEnd),
                }
            },
            SizedDefinition::I32(endian) => {
                match context.read_i32(endian) {
                    Ok(v) => Ok(v as i64),
                    Err(_) => Err(ConversionError::UnexpectedEnd),
                }
            },
            SizedDefinition::I64(endian) => {
                match context.read_i64(endian) {
                    Ok(v) => Ok(v),
                    Err(_) => Err(ConversionError::UnexpectedEnd),
                }
            },
            _ => Err(ConversionError::NotRepresentable),
        }
    }
}

/// One definition and display pair can be stamped onto many offsets and
/// buffers: the text rendered for a non-float shape depends on nothing
/// but the bytes under the cursor, so two cursors over the same bytes
/// render the same text.
pub proof fn lemma_stamping(
    d: SizedDefinition,
    c1: Context<'_>,
    c2: Context<'_>,
    display: SizedDisplay,
)
    requires
        !d.spec_is_float(),
        c1.spec_fits(d.spec_size()),
        c2.spec_fits(d.spec_size()),
        c1.spec_segment(d.spec_size()) == c2.spec_segment(d.spec_size()),
    ensures
        d.spec_rendered_at(c1, display) == d.spec_rendered_at(c2, display),
{
}

/// Create a new [`Context`] over `v` at the given offset.
///
/// No error checking is done, and this can't fail. But if the offset is
/// past the end of the buffer, all reads will fail.
pub fn new_context(v: &Vec<u8>, offset: u64) -> (c: Context<'_>)
    ensures
        c.spec_data() == v@,
        c.spec_position() == offset,
{
    Context::new_at(v, offset)
}

} // verus!
