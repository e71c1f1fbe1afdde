//! A concrete integer scalar of one of the ten supported shapes, read out
//! of a [`Context`] and rendered as text.
//!
//! One closed sum type stands in for every width and signedness, so a
//! display mode can be dispatched over it exhaustively.

use vstd::prelude::*;

use crate::context::lemma_bytes_to_nat_bound;
use crate::context::lemma_pow256_values;
use crate::context::lemma_single_byte;
use crate::context::pow256;
use crate::context::Context;
use crate::context::Endian;
use crate::context::ReadError;
use crate::display_options::BinaryOptions;
use crate::display_options::HexOptions;
use crate::display_options::ScientificOptions;
use crate::render::render_binary;
use crate::render::render_decimal_i128;
use crate::render::render_decimal_u128;
use crate::render::render_hex;
use crate::render::render_octal;
use crate::render::render_scientific_i128;
use crate::render::render_scientific_u128;
use crate::render::spec_binary;
use crate::render::spec_decimal;
use crate::render::spec_hex;
use crate::render::spec_octal;
use crate::render::spec_scientific;
use crate::SizedDefinition;

verus! {

/// An integer value of one of the ten supported shapes.
#[derive(Debug, Clone, Copy, PartialEq, Eq, Structural)]
pub enum SizedInteger {
    /// An unsigned 8-bit value.
    U8(u8),
    /// An unsigned 16-bit value.
    U16(u16),
    /// An unsigned 32-bit value.
    U32(u32),
    /// An unsigned 64-bit value.
    U64(u64),
    /// An unsigned 128-bit value.
    U128(u128),
    /// A signed 8-bit value.
    I8(i8),
    /// A signed 16-bit value.
    I16(i16),
    /// A signed 32-bit value.
    I32(i32),
    /// A signed 64-bit value.
    I64(i64),
    /// A signed 128-bit value.
    I128(i128),
}

/// A display mode, with its options, for an integer value. Every mode is
/// defined for every integer shape.
#[derive(Debug, Clone, Copy)]
pub enum IntegerDisplay {
    /// Hexadecimal text of the bit pattern.
    Hex(HexOptions),
    /// Decimal text of the value, signed per the shape.
    Decimal,
    /// Octal text of the bit pattern.
    Octal,
    /// Binary text of the bit pattern.
    Binary(BinaryOptions),
    /// Scientific / exponential text of the value.
    Scientific(ScientificOptions),
}

impl SizedInteger {
    /// The byte width of the shape.
    pub open spec fn spec_size(self) -> nat {
        match self {
            SizedInteger::U8(_) => 1,
            SizedInteger::U16(_) => 2,
            SizedInteger::U32(_) => 4,
            SizedInteger::U64(_) => 8,
            SizedInteger::U128(_) => 16,
            SizedInteger::I8(_) => 1,
            SizedInteger::I16(_) => 2,
            SizedInteger::I32(_) => 4,
            SizedInteger::I64(_) => 8,
            SizedInteger::I128(_) => 16,
        }
    }

    /// True of the signed shapes.
    pub open spec fn spec_is_signed(self) -> bool {
        match self {
            SizedInteger::I8(_) => true,
            SizedInteger::I16(_) => true,
            SizedInteger::I32(_) => true,
            SizedInteger::I64(_) => true,
            SizedInteger::I128(_) => true,
            _ => false,
        }
    }

    /// The mathematical value held.
    pub open spec fn spec_value(self) -> int {
        match self {
            SizedInteger::U8(v) => v as int,
            SizedInteger::U16(v) => v as int,
            SizedInteger::U32(v) => v as int,
            SizedInteger::U64(v) => v as int,
            SizedInteger::U128(v) => v as int,
            SizedInteger::I8(v) => v as int,
            SizedInteger::I16(v) => v as int,
            SizedInteger::I32(v) => v as int,
            SizedInteger::I64(v) => v as int,
            SizedInteger::I128(v) => v as int,
        }
    }

    /// The two's-complement bit pattern of the value over its width.
    pub open spec fn spec_bits(self) -> nat {
        if self.spec_value() >= 0 {
            self.spec_value() as nat
        } else {
            (self.spec_value() + pow256(self.spec_size())) as nat
        }
    }

    /// The text this value renders to under the given display mode.
    pub open spec fn spec_rendered(self, display: IntegerDisplay) -> Seq<char> {
        match display {
            IntegerDisplay::Hex(o) => spec_hex(self.spec_bits(), self.spec_size(), o),
            IntegerDisplay::Decimal => spec_decimal(self.spec_value()),
            IntegerDisplay::Octal => spec_octal(self.spec_bits()),
            IntegerDisplay::Binary(o) => spec_binary(self.spec_bits(), self.spec_size(), o),
            IntegerDisplay::Scientific(o) => spec_scientific(self.spec_value(), o.uppercase),
        }
    }

    /// The byte width of the shape.
    pub fn size(&self) -> (r: usize)
        ensures
            r == self.spec_size(),
    {
        match self {
            SizedInteger::U8(_) => 1,
            SizedInteger::U16(_) => 2,
            SizedInteger::U32(_) => 4,
            SizedInteger::U64(_) => 8,
            SizedInteger::U128(_) => 16,
            SizedInteger::I8(_) => 1,
            SizedInteger::I16(_) => 2,
            SizedInteger::I32(_) => 4,
            SizedInteger::I64(_) => 8,
            SizedInteger::I128(_) => 16,
        }
    }

    /// True of the signed shapes.
    fn is_signed(&self) -> (b: bool)
        ensures
            b == self.spec_is_signed(),
    {
        match self {
            SizedInteger::I8(_) => true,
            SizedInteger::I16(_) => true,
            SizedInteger::I32(_) => true,
            SizedInteger::I64(_) => true,
            SizedInteger::I128(_) => true,
            _ => false,
        }
    }

    /// The two's-complement bit pattern of the value over its width.
    fn bits(&self) -> (b: u128)
        ensures
            b as nat == self.spec_bits(),
    {
        proof {
            lemma_pow256_values();
        }
        match self {
            SizedInteger::U8(v) => *v as u128,
            SizedInteger::U16(v) => *v as u128,
            SizedInteger::U32(v) => *v as u128,
            SizedInteger::U64(v) => *v as u128,
            SizedInteger::U128(v) => *v,
            SizedInteger::I8(v) => {
                if *v >= 0 {
                    *v as u128
                } else {
                    ((*v as i32) + 0x100) as u128
                }
            },
            SizedInteger::I16(v) => {
                if *v >= 0 {
                    *v as u128
                } else {
                    ((*v as i32) + 0x1_0000) as u128
                }
            },
            SizedInteger::I32(v) => {
                if *v >= 0 {
                    *v as u128
                } else {
                    ((*v as i64) + 0x1_0000_0000) as u128
                }
            },
            SizedInteger::I64(v) => {
                if *v >= 0 {
                    *v as u128
                } else {
                    ((*v as i128) + 0x1_0000_0000_0000_0000) as u128
                }
            },
            SizedInteger::I128(v) => {
                if *v >= 0 {
                    *v as u128
                } else {
                    let low = (*v - (-0x8000_0000_0000_0000_0000_0000_0000_0000i128)) as u128;
                    low + 0x8000_0000_0000_0000_0000_0000_0000_0000u128
                }
            },
        }
    }

    /// The value of an unsigned shape, widened.
    fn value_u128(&self) -> (v: u128)
        requires
            !self.spec_is_signed(),
        ensures
            v as int == self.spec_value(),
    {
        match self {
            SizedInteger::U8(v) => *v as u128,
            SizedInteger::U16(v) => *v as u128,
            SizedInteger::U32(v) => *v as u128,
            SizedInteger::U64(v) => *v as u128,
            SizedInteger::U128(v) => *v,
            _ => 0,
        }
    }

    /// The value of a signed shape, sign-extended.
    fn value_i128(&self) -> (v: i128)
        requires
            self.spec_is_signed(),
        ensures
            v as int == self.spec_value(),
    {
        match self {
            SizedInteger::I8(v) => *v as i128,
            SizedInteger::I16(v) => *v as i128,
            SizedInteger::I32(v) => *v as i128,
            SizedInteger::I64(v) => *v as i128,
            SizedInteger::I128(v) => *v,
            _ => 0,
        }
    }

    /// Read a value of the shape `definition` describes at the context's
    /// position. Fails exactly when fewer bytes remain than the shape
    /// needs.
    pub fn read(context: &Context, definition: SizedDefinition) -> (r: Result<
        SizedInteger,
        ReadError,
    >)
        requires
            !definition.spec_is_float(),
        ensures
            match r {
                Ok(v) => {
                    &&& context.spec_fits(definition.spec_size())
                    &&& v.spec_size() == definition.spec_size()
                    &&& v.spec_is_signed() == definition.spec_is_signed()
                    &&& v.spec_bits() == definition.spec_bits_at(*context)
                    &&& v.spec_value() == definition.spec_value_at(*context)
                },
                Err(e) => !context.spec_fits(definition.spec_size()) && e
                    == ReadError::UnexpectedEnd,
            },
    {
        proof {
            lemma_pow256_values();
        }
        match definition {
            SizedDefinition::U8 => {
                match context.read_u8() {
                    Ok(v) => {
                        proof {
                            lemma_single_byte(context.spec_segment(1), Endian::Big);
                        }
                        Ok(SizedInteger::U8(v))
                    },
                    Err(e) => Err(e),
                }
            },
            SizedDefinition::U16(endian) => {
                match context.read_u16(endian) {
                    Ok(v) => Ok(SizedInteger::U16(v)),
                    Err(e) => Err(e),
                }
            },
            SizedDefinition::U32(endian) => {
                match context.read_u32(endian) {
                    Ok(v) => Ok(SizedInteger::U32(v)),
                    Err(e) => Err(e),
                }
            },
            SizedDefinition::U64(endian) => {
                match context.read_u64(endian) {
                    Ok(v) => Ok(SizedInteger::U64(v)),
                    Err(e) => Err(e),
                }
            },
            SizedDefinition::U128(endian) => {
                match context.read_u128(endian) {
                    Ok(v) => Ok(SizedInteger::U128(v)),
                    Err(e) => Err(e),
                }
            },
            SizedDefinition::I8 => {
                match context.read_i8() {
                    Ok(v) => {
                        proof {
                            lemma_single_byte(context.spec_segment(1), Endian::Big);
                            lemma_bytes_to_nat_bound(context.spec_segment(1), Endian::Big);
                        }
                        Ok(SizedInteger::I8(v))
                    },
                    Err(e) => Err(e),
                }
            },
            SizedDefinition::I16(endian) => {
                match context.read_i16(endian) {
                    Ok(v) => {
                        proof {
                            lemma_bytes_to_nat_bound(context.spec_segment(2), endian);
                        }
                        Ok(SizedInteger::I16(v))
                    },
                    Err(e) => Err(e),
                }
            },
            SizedDefinition::I32(endian) => {
                match context.read_i32(endian) {
                    Ok(v) => {
                        proof {
                            lemma_bytes_to_nat_bound(context.spec_segment(4), endian);
                        }
                        Ok(SizedInteger::I32(v))
                    },
                    Err(e) => Err(e),
                }
            },
            SizedDefinition::I64(endian) => {
                match context.read_i64(endian) {
                    Ok(v) => {
                        proof {
                            lemma_bytes_to_nat_bound(context.spec_segment(8), endian);
                        }
                        Ok(SizedInteger::I64(v))
                    },
                    Err(e) => Err(e),
                }
            },
            SizedDefinition::I128(endian) => {
                match context.read_i128(endian) {
                    Ok(v) => {
                        proof {
                            lemma_bytes_to_nat_bound(context.spec_segment(16), endian);
                        }
                        Ok(SizedInteger::I128(v))
                    },
                    Err(e) => Err(e),
                }
            },
            SizedDefinition::F32(_) => {
                proof {
                    assert(false);
                }
                Err(ReadError::UnexpectedEnd)
            },
            SizedDefinition::F64(_) => {
                proof {
                    assert(false);
                }
                Err(ReadError::UnexpectedEnd)
            },
        }
    }

    /// The text of this value under the given display mode. Every mode is
    /// defined for every integer shape, so this cannot fail.
    pub fn to_string(&self, display: IntegerDisplay) -> (r: String)
        ensures
            r@ == self.spec_rendered(display),
    {
        match display {
            IntegerDisplay::Hex(options) => render_hex(self.bits(), self.size(), options),
            IntegerDisplay::Decimal => {
                if self.is_signed() {
                    render_decimal_i128(self.value_i128())
                } else {
                    render_decimal_u128(self.value_u128())
                }
            },
            IntegerDisplay::Octal => render_octal(self.bits()),
            IntegerDisplay::Binary(options) => render_binary(self.bits(), self.size(), options),
            IntegerDisplay::Scientific(options) => {
                if self.is_signed() {
                    render_scientific_i128(self.value_i128(), options.uppercase)
                } else {
                    render_scientific_u128(self.value_u128(), options.uppercase)
                }
            },
        }
    }
}

} // verus!
