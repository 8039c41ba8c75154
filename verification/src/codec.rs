//! A reader over bytes that are already in memory.

use crate::network::wire::{
    after_length, after_numbers, bytes_in, raw_in, signed16, u16_at, u16_in, u32_in, u8_in,
    v3f32_in,
};
use crate::text::{copy_range, utf8_lossy, utf8_to_string_lossy};
use crate::types::Vec3;
use vstd::prelude::*;

verus! {

/// The bytes end before the value does.
#[derive(Clone, Copy, Debug, PartialEq, Eq, Structural)]
pub struct OutOfBounds;

/// Reads values one after the other.
pub struct ByteReader<'a> {
    data: &'a [u8],
    offset: usize,
}

/// Text behind its 16 bit length in bytes, with malformed parts replaced.
pub open spec fn text_in(b: Seq<u8>, at: int) -> Option<(Seq<char>, int)> {
    match bytes_in(b, at) {
        Some((raw, next)) => Some((utf8_lossy(raw), next)),
        None => None,
    }
}

/// Bytes behind their 32 bit length.
pub open spec fn long_bytes_in(b: Seq<u8>, at: int) -> Option<(Seq<u8>, int)> {
    match u32_in(b, at) {
        Some((len, start)) => raw_in(b, start, len as int),
        None => None,
    }
}

impl<'a> ByteReader<'a> {
    /// What is read from.
    pub closed spec fn bytes(&self) -> Seq<u8> {
        self.data@
    }

    /// Where the next value starts.
    pub closed spec fn at(&self) -> int {
        self.offset as int
    }

    pub fn new(data: &'a [u8]) -> (reader: Self)
        ensures
            reader.bytes() == data@,
            reader.at() == 0,
    {
        ByteReader { data, offset: 0 }
    }

    /// The number of bytes that are left.
    pub fn remaining(&self) -> (n: usize)
        ensures
            n == (if self.at() <= self.bytes().len() {
                self.bytes().len() - self.at()
            } else {
                0
            }),
    {
        self.data.len().saturating_sub(self.offset)
    }

    pub fn position(&self) -> (at: usize)
        ensures
            at == self.at(),
    {
        self.offset
    }

    /// At most `len` bytes from `offset` on, as far as there are any.
    pub fn peek_bytes_at(&self, offset: usize, len: usize) -> (out: Vec<u8>)
        ensures
            out@ == (if offset >= self.bytes().len() || len == 0 {
                Seq::<u8>::empty()
            } else if offset + len <= self.bytes().len() {
                self.bytes().subrange(offset as int, offset + len)
            } else {
                self.bytes().skip(offset as int)
            }),
    {
        if offset >= self.data.len() || len == 0 {
            let none: Vec<u8> = Vec::new();
            assert(none@ =~= Seq::<u8>::empty());
            return none;
        }
        let wanted: usize = offset.saturating_add(len);
        let end: usize = if wanted < self.data.len() { wanted } else { self.data.len() };
        let out: Vec<u8> = copy_range(self.data, offset, end);
        assert(self.data@.skip(offset as int) =~= self.data@.subrange(
            offset as int,
            self.data@.len() as int,
        ));
        out
    }

    pub fn read_u8(&mut self) -> (result: Result<u8, OutOfBounds>)
        ensures
            final(self).bytes() == old(self).bytes(),
            match result {
                Ok(v) => u8_in(old(self).bytes(), old(self).at()) == Some((v, final(self).at())),
                Err(_) => u8_in(old(self).bytes(), old(self).at()) is None && final(self).at()
                    == old(self).at(),
            },
    {
        if self.offset >= self.data.len() {
            return Err(OutOfBounds);
        }
        let v: u8 = self.data[self.offset];
        self.offset = self.offset + 1;
        Ok(v)
    }

    pub fn read_u16(&mut self) -> (result: Result<u16, OutOfBounds>)
        ensures
            final(self).bytes() == old(self).bytes(),
            match result {
                Ok(v) => u16_in(old(self).bytes(), old(self).at()) == Some((v, final(self).at())),
                Err(_) => u16_in(old(self).bytes(), old(self).at()) is None && final(self).at()
                    == old(self).at(),
            },
    {
        if self.offset > self.data.len() || self.data.len() - self.offset < 2 {
            return Err(OutOfBounds);
        }
        let v: u16 = self.data[self.offset] as u16 * 256 + self.data[self.offset + 1] as u16;
        self.offset = self.offset + 2;
        Ok(v)
    }

    pub fn read_s16(&mut self) -> (result: Result<i16, OutOfBounds>)
        ensures
            final(self).bytes() == old(self).bytes(),
            match result {
                Ok(v) => u16_in(old(self).bytes(), old(self).at()) is Some && v == signed16(
                    u16_at(old(self).bytes(), old(self).at()),
                ) && final(self).at() == old(self).at() + 2,
                Err(_) => u16_in(old(self).bytes(), old(self).at()) is None && final(self).at()
                    == old(self).at(),
            },
    {
        let v: u16 = self.read_u16()?;
        Ok(if v < 0x8000 { v as i16 } else { (v as i32 - 0x1_0000) as i16 })
    }

    pub fn read_u32(&mut self) -> (result: Result<u32, OutOfBounds>)
        ensures
            final(self).bytes() == old(self).bytes(),
            match result {
                Ok(v) => u32_in(old(self).bytes(), old(self).at()) == Some((v, final(self).at())),
                Err(_) => u32_in(old(self).bytes(), old(self).at()) is None && final(self).at()
                    == old(self).at(),
            },
    {
        if self.offset > self.data.len() || self.data.len() - self.offset < 4 {
            return Err(OutOfBounds);
        }
        let at: usize = self.offset;
        let v: u32 = self.data[at] as u32 * 0x100_0000 + self.data[at + 1] as u32 * 0x1_0000
            + self.data[at + 2] as u32 * 256 + self.data[at + 3] as u32;
        self.offset = self.offset + 4;
        Ok(v)
    }

    /// Reads a single precision number as its bit pattern.
    pub fn read_f32(&mut self) -> (result: Result<u32, OutOfBounds>)
        ensures
            final(self).bytes() == old(self).bytes(),
            match result {
                Ok(v) => u32_in(old(self).bytes(), old(self).at()) == Some((v, final(self).at())),
                Err(_) => u32_in(old(self).bytes(), old(self).at()) is None && final(self).at()
                    == old(self).at(),
            },
    {
        self.read_u32()
    }

    /// Reads three numbers; those before the end of the bytes are consumed.
    pub fn read_vec3_f32(&mut self) -> (result: Result<Vec3, OutOfBounds>)
        ensures
            final(self).bytes() == old(self).bytes(),
            match result {
                Ok(v) => v3f32_in(old(self).bytes(), old(self).at()) == Some((v, final(self).at())),
                Err(_) => v3f32_in(old(self).bytes(), old(self).at()) is None && final(self).at()
                    == after_numbers(old(self).bytes(), old(self).at()),
            },
    {
        let x: u32 = self.read_f32()?;
        let y: u32 = self.read_f32()?;
        let z: u32 = self.read_f32()?;
        Ok(Vec3 { x, y, z })
    }

    pub fn read_bytes16(&mut self) -> (result: Result<Vec<u8>, OutOfBounds>)
        ensures
            final(self).bytes() == old(self).bytes(),
            match result {
                Ok(v) => bytes_in(old(self).bytes(), old(self).at()) == Some(
                    (v@, final(self).at()),
                ),
                Err(_) => bytes_in(old(self).bytes(), old(self).at()) is None && final(self).at()
                    == after_length(old(self).bytes(), old(self).at()),
            },
    {
        let len: usize = self.read_u16()? as usize;
        if self.data.len() - self.offset < len {
            return Err(OutOfBounds);
        }
        let out: Vec<u8> = copy_range(self.data, self.offset, self.offset + len);
        self.offset = self.offset + len;
        Ok(out)
    }

    pub fn read_string16(&mut self) -> (result: Result<String, OutOfBounds>)
        ensures
            final(self).bytes() == old(self).bytes(),
            match result {
                Ok(s) => text_in(old(self).bytes(), old(self).at()) == Some((s@, final(self).at())),
                Err(_) => text_in(old(self).bytes(), old(self).at()) is None && final(self).at()
                    == after_length(old(self).bytes(), old(self).at()),
            },
    {
        let raw: Vec<u8> = self.read_bytes16()?;
        Ok(utf8_to_string_lossy(raw.as_slice()))
    }

    pub fn read_string32(&mut self) -> (result: Result<Vec<u8>, OutOfBounds>)
        ensures
            final(self).bytes() == old(self).bytes(),
            match result {
                Ok(v) => long_bytes_in(old(self).bytes(), old(self).at()) == Some(
                    (v@, final(self).at()),
                ),
                Err(_) => long_bytes_in(old(self).bytes(), old(self).at()) is None
                    && final(self).at() == (if u32_in(old(self).bytes(), old(self).at()) is Some {
                    old(self).at() + 4
                } else {
                    old(self).at()
                }),
            },
    {
        let len: usize = self.read_u32()? as usize;
        if self.data.len() - self.offset < len {
            return Err(OutOfBounds);
        }
        let out: Vec<u8> = copy_range(self.data, self.offset, self.offset + len);
        self.offset = self.offset + len;
        Ok(out)
    }

    /// Passes over `n` bytes.
    pub fn skip(&mut self, n: usize) -> (result: Result<(), OutOfBounds>)
        ensures
            final(self).bytes() == old(self).bytes(),
            match result {
                Ok(()) => old(self).at() + n <= old(self).bytes().len() && final(self).at()
                    == old(self).at() + n,
                Err(_) => old(self).at() + n > old(self).bytes().len() && final(self).at()
                    == old(self).at(),
            },
    {
        if self.offset > self.data.len() || self.data.len() - self.offset < n {
            return Err(OutOfBounds);
        }
        self.offset = self.offset + n;
        Ok(())
    }
}

} // verus!
