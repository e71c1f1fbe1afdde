//! A borrowed byte buffer paired with a read position, offering
//! bounds-checked fixed-width reads that never mutate the buffer or the
//! cursor itself.

use vstd::prelude::*;

verus! {

/// The byte order used to read multi-byte integers.
#[derive(Debug, Clone, Copy, PartialEq, Eq, Structural)]
pub enum Endian {
    /// Most significant byte is first (eg, `0x1234` -> `12 34`).
    Big,
    /// Most significant byte is last (eg, `0x1234` -> `34 12`).
    Little,
}

/// The error a read can end in.
#[derive(Debug, Clone, Copy, PartialEq, Eq, Structural)]
pub enum ReadError {
    /// Fewer bytes remain at the read position than the read requires.
    UnexpectedEnd,
}

/// `256^n`, the number of values `n` bytes can hold.
pub open spec fn pow256(n: nat) -> nat
    decreases n,
{
    if n == 0 {
        1
    } else {
        256 * pow256((n - 1) as nat)
    }
}

/// The value of `s` read as a little-endian unsigned integer: the first
/// byte is the least significant.
pub open spec fn le_bytes_to_nat(s: Seq<u8>) -> nat
    decreases s.len(),
{
    if s.len() == 0 {
        0
    } else {
        s.first() as nat + 256 * le_bytes_to_nat(s.drop_first())
    }
}

/// The value of `s` read as a big-endian unsigned integer: the last byte
/// is the least significant.
pub open spec fn be_bytes_to_nat(s: Seq<u8>) -> nat
    decreases s.len(),
{
    if s.len() == 0 {
        0
    } else {
        256 * be_bytes_to_nat(s.drop_last()) + s.last() as nat
    }
}

/// The value of `s` read as an unsigned integer in the given byte order.
pub open spec fn bytes_to_nat(s: Seq<u8>, endian: Endian) -> nat {
    match endian {
        Endian::Big => be_bytes_to_nat(s),
        Endian::Little => le_bytes_to_nat(s),
    }
}

/// The concrete values of `pow256` at the widths the library reads.
pub proof fn lemma_pow256_values()
    ensures
        pow256(0) == 1,
        pow256(1) == 0x100,
        pow256(2) == 0x1_0000,
        pow256(4) == 0x1_0000_0000,
        pow256(8) == 0x1_0000_0000_0000_0000,
        pow256(16) == 0x1_0000_0000_0000_0000_0000_0000_0000_0000,
{
    assert(pow256(0) == 1);
    assert(pow256(1) == 0x100);
    assert(pow256(2) == 0x1_0000);
    assert(pow256(3) == 0x100_0000);
    assert(pow256(4) == 0x1_0000_0000);
    assert(pow256(5) == 0x100_0000_0000);
    assert(pow256(6) == 0x1_0000_0000_0000);
    assert(pow256(7) == 0x100_0000_0000_0000);
    assert(pow256(8) == 0x1_0000_0000_0000_0000);
    assert(pow256(9) == 0x100_0000_0000_0000_0000);
    assert(pow256(10) == 0x1_0000_0000_0000_0000_0000);
    assert(pow256(11) == 0x100_0000_0000_0000_0000_0000);
    assert(pow256(12) == 0x1_0000_0000_0000_0000_0000_0000);
    assert(pow256(13) == 0x100_0000_0000_0000_0000_0000_0000);
    assert(pow256(14) == 0x1_0000_0000_0000_0000_0000_0000_0000);
    assert(pow256(15) == 0x100_0000_0000_0000_0000_0000_0000_0000);
    assert(pow256(16) == 0x1_0000_0000_0000_0000_0000_0000_0000_0000);
}

/// `pow256` grows with its argument.
pub proof fn lemma_pow256_increases(a: nat, b: nat)
    requires
        a <= b,
    ensures
        pow256(a) <= pow256(b),
    decreases b,
{
    if a < b {
        lemma_pow256_increases(a, (b - 1) as nat);
        assert(pow256(b) == 256 * pow256((b - 1) as nat));
        assert(pow256((b - 1) as nat) <= 256 * pow256((b - 1) as nat)) by (nonlinear_arith)
            requires
                pow256((b - 1) as nat) >= 0,
        ;
    }
}

/// A sequence of `n` bytes holds a value below `256^n` (big-endian).
pub proof fn lemma_be_bytes_bound(s: Seq<u8>)
    ensures
        be_bytes_to_nat(s) < pow256(s.len()),
    decreases s.len(),
{
    if s.len() > 0 {
        lemma_be_bytes_bound(s.drop_last());
        assert(256 * be_bytes_to_nat(s.drop_last()) + 255 < 256 * pow256((s.len() - 1) as nat))
            by (nonlinear_arith)
            requires
                be_bytes_to_nat(s.drop_last()) < pow256((s.len() - 1) as nat),
        ;
    }
}

/// A sequence of `n` bytes holds a value below `256^n` (little-endian).
pub proof fn lemma_le_bytes_bound(s: Seq<u8>)
    ensures
        le_bytes_to_nat(s) < pow256(s.len()),
    decreases s.len(),
{
    if s.len() > 0 {
        lemma_le_bytes_bound(s.drop_first());
        assert(255 + 256 * le_bytes_to_nat(s.drop_first()) < 256 * pow256((s.len() - 1) as nat))
            by (nonlinear_arith)
            requires
                le_bytes_to_nat(s.drop_first()) < pow256((s.len() - 1) as nat),
        ;
    }
}

/// A sequence of `n` bytes holds a value below `256^n`, either byte order.
pub proof fn lemma_bytes_to_nat_bound(s: Seq<u8>, endian: Endian)
    ensures
        bytes_to_nat(s, endian) < pow256(s.len()),
{
    match endian {
        Endian::Big => lemma_be_bytes_bound(s),
        Endian::Little => lemma_le_bytes_bound(s),
    }
}

/// A single byte holds the same value in either byte order.
pub proof fn lemma_single_byte(s: Seq<u8>, endian: Endian)
    requires
        s.len() == 1,
    ensures
        bytes_to_nat(s, endian) == s[0],
{
    assert(s.drop_last().len() == 0);
    assert(s.drop_first().len() == 0);
    assert(be_bytes_to_nat(s.drop_last()) == 0);
    assert(le_bytes_to_nat(s.drop_first()) == 0);
    assert(s.last() == s[0]);
    assert(s.first() == s[0]);
}

/// Half of the range of a signed integer `width` bytes wide: the least
/// value whose two's-complement pattern has the top bit set.
pub open spec fn spec_half_range(width: nat) -> nat {
    if width == 1 {
        0x80
    } else if width == 2 {
        0x8000
    } else if width == 4 {
        0x8000_0000
    } else if width == 8 {
        0x8000_0000_0000_0000
    } else if width == 16 {
        0x8000_0000_0000_0000_0000_0000_0000_0000
    } else {
        0
    }
}

/// The signed value whose two's-complement pattern over `width` bytes is
/// `v`.
pub open spec fn signed_of(v: nat, width: nat) -> int
    recommends
        v < pow256(width),
        width == 1 || width == 2 || width == 4 || width == 8 || width == 16,
{
    if v < spec_half_range(width) {
        v as int
    } else {
        v - pow256(width)
    }
}

/// A byte buffer with a read position.
///
/// The buffer is borrowed and never mutated; the position never moves. A
/// read at another offset goes through a new `Context` value made with
/// [`Context::at`], so one configuration can be stamped onto many offsets.
#[derive(Debug, Clone, Copy)]
pub struct Context<'a> {
    data: &'a Vec<u8>,
    position: u64,
}

impl<'a> Context<'a> {
    /// The bytes this context reads from.
    pub closed spec fn spec_data(self) -> Seq<u8> {
        self.data@
    }

    /// The position reads start at.
    pub closed spec fn spec_position(self) -> u64 {
        self.position
    }

    /// True when `width` bytes remain at the read position.
    pub open spec fn spec_fits(self, width: nat) -> bool {
        self.spec_position() + width <= self.spec_data().len()
    }

    /// The `width` bytes at the read position.
    pub open spec fn spec_segment(self, width: nat) -> Seq<u8>
        recommends
            self.spec_fits(width),
    {
        self.spec_data().subrange(
            self.spec_position() as int,
            self.spec_position() + width as int,
        )
    }

    /// Create a new `Context` at position 0.
    ///
    /// Cannot fail, even if the Vec is empty.
    pub fn new(v: &'a Vec<u8>) -> (c: Self)
        ensures
            c.spec_data() == v@,
            c.spec_position() == 0,
    {
        Context { data: v, position: 0 }
    }

    /// Create a new `Context` at a given position.
    ///
    /// Cannot fail, even if the position is past the end of the buffer;
    /// that is checked when reading, not here.
    pub fn new_at(v: &'a Vec<u8>, index: u64) -> (c: Self)
        ensures
            c.spec_data() == v@,
            c.spec_position() == index,
    {
        Context { data: v, position: index }
    }

    /// A new `Context` over the same buffer at another position. The
    /// receiver is unchanged.
    pub fn at(&self, new_position: u64) -> (c: Self)
        ensures
            c.spec_data() == self.spec_data(),
            c.spec_position() == new_position,
    {
        Context { data: self.data, position: new_position }
    }

    /// The current position.
    pub fn position(&self) -> (p: u64)
        ensures
            p == self.spec_position(),
    {
        self.position
    }

    /// Read `width` bytes at the position as an unsigned integer in the
    /// given byte order.
    pub(crate) fn read_unsigned(&self, width: usize, endian: Endian) -> (r: Result<
        u128,
        ReadError,
    >)
        requires
            1 <= width <= 16,
        ensures
            match r {
                Ok(v) => self.spec_fits(width as nat) && v == bytes_to_nat(
                    self.spec_segment(width as nat),
                    endian,
                ),
                Err(e) => !self.spec_fits(width as nat) && e == ReadError::UnexpectedEnd,
            },
    {
        let len = self.data.len();
        if self.position > len as u64 || (len as u64 - self.position) < width as u64 {
            return Err(ReadError::UnexpectedEnd);
        }
        let start = self.position as usize;
        let ghost seg = self.spec_segment(width as nat);
        proof {
            lemma_pow256_values();
        }
        let mut acc: u128 = 0;
        match endian {
            Endian::Big => {
                let mut j: usize = 0;
                while j < width
                    invariant
                        j <= width <= 16,
                        start == self.spec_position(),
                        len == self.spec_data().len(),
                        start + width <= len,
                        seg == self.spec_segment(width as nat),
                        acc == be_bytes_to_nat(seg.take(j as int)),
                        pow256(16) == 0x1_0000_0000_0000_0000_0000_0000_0000_0000,
                    decreases width - j,
                {
                    proof {
                        lemma_be_bytes_bound(seg.take(j as int));
                        lemma_pow256_increases(j as nat, 15);
                        lemma_pow256_values();
                        assert(acc * 256 + 255 < 256 * pow256(15)) by (nonlinear_arith)
                            requires
                                acc < pow256(15),
                        ;
                    }
                    let b = self.data[start + j];
                    acc = acc * 256 + (b as u128);
                    proof {
                        assert(seg.take(j + 1).drop_last() =~= seg.take(j as int));
                        assert(seg.take(j + 1).last() == seg[j as int]);
                    }
                    j += 1;
                }
                proof {
                    assert(seg.take(width as int) =~= seg);
                }
                Ok(acc)
            },
            Endian::Little => {
                let mut j: usize = width;
                while j > 0
                    invariant
                        j <= width <= 16,
                        start == self.spec_position(),
                        len == self.spec_data().len(),
                        start + width <= len,
                        seg == self.spec_segment(width as nat),
                        acc == le_bytes_to_nat(seg.skip(j as int)),
                        pow256(16) == 0x1_0000_0000_0000_0000_0000_0000_0000_0000,
                    decreases j,
                {
                    proof {
                        lemma_le_bytes_bound(seg.skip(j as int));
                        lemma_pow256_increases((width - j) as nat, 15);
                        lemma_pow256_values();
                        assert(acc * 256 + 255 < 256 * pow256(15)) by (nonlinear_arith)
                            requires
                                acc < pow256(15),
                        ;
                        assert(seg.skip(j - 1).drop_first() =~= seg.skip(j as int));
                        assert(seg.skip(j - 1).first() == seg[j - 1]);
                    }
                    let b = self.data[start + j - 1];
                    acc = acc * 256 + (b as u128);
                    j -= 1;
                }
                proof {
                    assert(seg.skip(0) =~= seg);
                }
                Ok(acc)
            },
        }
    }

    /// Read the byte at the position.
    pub fn read_u8(&self) -> (r: Result<u8, ReadError>)
        ensures
            match r {
                Ok(v) => self.spec_fits(1) && v == self.spec_segment(1)[0],
                Err(e) => !self.spec_fits(1) && e == ReadError::UnexpectedEnd,
            },
    {
        match self.read_unsigned(1, Endian::Big) {
            Ok(v) => {
                proof {
                    lemma_single_byte(self.spec_segment(1), Endian::Big);
                }
                Ok(v as u8)
            },
            Err(e) => Err(e),
        }
    }

    /// Read 2 bytes at the position as an unsigned integer.
    pub fn read_u16(&self, endian: Endian) -> (r: Result<u16, ReadError>)
        ensures
            match r {
                Ok(v) => self.spec_fits(2) && v == bytes_to_nat(self.spec_segment(2), endian),
                Err(e) => !self.spec_fits(2) && e == ReadError::UnexpectedEnd,
            },
    {
        match self.read_unsigned(2, endian) {
            Ok(v) => {
                proof {
                    lemma_bytes_to_nat_bound(self.spec_segment(2), endian);
                    lemma_pow256_values();
                }
                Ok(v as u16)
            },
            Err(e) => Err(e),
        }
    }

    /// Read 4 bytes at the position as an unsigned integer.
    pub fn read_u32(&self, endian: Endian) -> (r: Result<u32, ReadError>)
        ensures
            match r {
                Ok(v) => self.spec_fits(4) && v == bytes_to_nat(self.spec_segment(4), endian),
                Err(e) => !self.spec_fits(4) && e == ReadError::UnexpectedEnd,
            },
    {
        match self.read_unsigned(4, endian) {
            Ok(v) => {
                proof {
                    lemma_bytes_to_nat_bound(self.spec_segment(4), endian);
                    lemma_pow256_values();
                }
                Ok(v as u32)
            },
            Err(e) => Err(e),
        }
    }

    /// Read 8 bytes at the position as an unsigned integer.
    pub fn read_u64(&self, endian: Endian) -> (r: Result<u64, ReadError>)
        ensures
            match r {
                Ok(v) => self.spec_fits(8) && v == bytes_to_nat(self.spec_segment(8), endian),
                Err(e) => !self.spec_fits(8) && e == ReadError::UnexpectedEnd,
            },
    {
        match self.read_unsigned(8, endian) {
            Ok(v) => {
                proof {
                    lemma_bytes_to_nat_bound(self.spec_segment(8), endian);
                    lemma_pow256_values();
                }
                Ok(v as u64)
            },
            Err(e) => Err(e),
        }
    }

    /// Read 16 bytes at the position as an unsigned integer.
    pub fn read_u128(&self, endian: Endian) -> (r: Result<u128, ReadError>)
        ensures
            match r {
                Ok(v) => self.spec_fits(16) && v == bytes_to_nat(self.spec_segment(16), endian),
                Err(e) => !self.spec_fits(16) && e == ReadError::UnexpectedEnd,
            },
    {
        self.read_unsigned(16, endian)
    }

    /// Read the byte at the position as a signed integer.
    pub fn read_i8(&self) -> (r: Result<i8, ReadError>)
        ensures
            match r {
                Ok(v) => self.spec_fits(1) && v as int == signed_of(
                    self.spec_segment(1)[0] as nat,
                    1,
                ),
                Err(e) => !self.spec_fits(1) && e == ReadError::UnexpectedEnd,
            },
    {
        match self.read_u8() {
            Ok(u) => {
                proof {
                    lemma_pow256_values();
                }
                if u < 0x80 {
                    Ok(u as i8)
                } else {
                    Ok(((u as i16) - 0x100) as i8)
                }
            },
            Err(e) => Err(e),
        }
    }

    /// Read 2 bytes at the position as a signed integer.
    pub fn read_i16(&self, endian: Endian) -> (r: Result<i16, ReadError>)
        ensures
            match r {
                Ok(v) => self.spec_fits(2) && v as int == signed_of(
                    bytes_to_nat(self.spec_segment(2), endian),
                    2,
                ),
                Err(e) => !self.spec_fits(2) && e == ReadError::UnexpectedEnd,
            },
    {
        match self.read_u16(endian) {
            Ok(u) => {
                proof {
                    lemma_pow256_values();
                }
                if u < 0x8000 {
                    Ok(u as i16)
                } else {
                    Ok(((u as i32) - 0x1_0000) as i16)
                }
            },
            Err(e) => Err(e),
        }
    }

    /// Read 4 bytes at the position as a signed integer.
    pub fn read_i32(&self, endian: Endian) -> (r: Result<i32, ReadError>)
        ensures
            match r {
                Ok(v) => self.spec_fits(4) && v as int == signed_of(
                    bytes_to_nat(self.spec_segment(4), endian),
                    4,
                ),
                Err(e) => !self.spec_fits(4) && e == ReadError::UnexpectedEnd,
            },
    {
        match self.read_u32(endian) {
            Ok(u) => {
                proof {
                    lemma_pow256_values();
                }
                if u < 0x8000_0000 {
                    Ok(u as i32)
                } else {
                    Ok(((u as i64) - 0x1_0000_0000) as i32)
                }
            },
            Err(e) => Err(e),
        }
    }

    /// Read 8 bytes at the position as a signed integer.
    pub fn read_i64(&self, endian: Endian) -> (r: Result<i64, ReadError>)
        ensures
            match r {
                Ok(v) => self.spec_fits(8) && v as int == signed_of(
                    bytes_to_nat(self.spec_segment(8), endian),
                    8,
                ),
                Err(e) => !self.spec_fits(8) && e == ReadError::UnexpectedEnd,
            },
    {
        match self.read_u64(endian) {
            Ok(u) => {
                proof {
                    lemma_pow256_values();
                }
                if u < 0x8000_0000_0000_0000 {
                    Ok(u as i64)
                } else {
                    Ok(((u as i128) - 0x1_0000_0000_0000_0000) as i64)
                }
            },
            Err(e) => Err(e),
        }
    }

    /// Read 16 bytes at the position as a signed integer.
    pub fn read_i128(&self, endian: Endian) -> (r: Result<i128, ReadError>)
        ensures
            match r {
                Ok(v) => self.spec_fits(16) && v as int == signed_of(
                    bytes_to_nat(self.spec_segment(16), endian),
                    16,
                ),
                Err(e) => !self.spec_fits(16) && e == ReadError::UnexpectedEnd,
            },
    {
        match self.read_u128(endian) {
            Ok(u) => {
                proof {
                    lemma_pow256_values();
                }
                if u < 0x8000_0000_0000_0000_0000_0000_0000_0000u128 {
                    Ok(u as i128)
                } else {
                    let d = u - 0x8000_0000_0000_0000_0000_0000_0000_0000u128;
                    Ok((d as i128) + (-0x8000_0000_0000_0000_0000_0000_0000_0000i128))
                }
            },
            Err(e) => Err(e),
        }
    }

    /// Read exactly `size` raw bytes at the position. Reading 0 bytes
    /// succeeds at any position, even one past the end of the buffer.
    pub fn read_bytes(&self, size: usize) -> (r: Result<Vec<u8>, ReadError>)
        ensures
            match r {
                Ok(v) => {
                    &&& size == 0 || self.spec_fits(size as nat)
                    &&& v@.len() == size
                    &&& forall|i: int|
                        0 <= i < size ==> v@[i] == self.spec_data()[self.spec_position() + i]
                },
                Err(e) => size > 0 && !self.spec_fits(size as nat) && e
                    == ReadError::UnexpectedEnd,
            },
    {
        if size == 0 {
            return Ok(Vec::new());
        }
        let len = self.data.len();
        if self.position > len as u64 || (len as u64 - self.position) < size as u64 {
            return Err(ReadError::UnexpectedEnd);
        }
        let start = self.position as usize;
        let mut v: Vec<u8> = Vec::new();
        let mut j: usize = 0;
        while j < size
            invariant
                j <= size,
                start == self.spec_position(),
                len == self.spec_data().len(),
                start + size <= len,
                v@.len() == j,
                forall|i: int| 0 <= i < j ==> v@[i] == self.spec_data()[start + i],
            decreases size - j,
        {
            v.push(self.data[start + j]);
            j += 1;
        }
        Ok(v)
    }
}

} // verus!
