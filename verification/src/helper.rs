//! The field codec in its byte-regrouping form: the groups of a field are
//! laid out as the five little-endian bytes of their 35-bit payload, and the
//! first four of those are read as a fixed-width number.

use crate::byte_order;
use crate::descriptor::read_groups;
use crate::descriptor::scan_groups;
use crate::descriptor::signed_of;
use crate::descriptor::var_32;
use crate::descriptor::ByteReader;
use crate::descriptor::MAX_GROUPS;
use crate::error::Error;
use vstd::prelude::*;
use vstd::slice::slice_subrange;

verus! {

/// A breakpoint: a position and a level.
#[derive(Clone, Copy, Debug, PartialEq, Eq, Structural)]
pub struct Point {
    pub x: i32,
    pub y: i32,
}

/// Byte `k` of the little-endian layout of `payload`.
pub open spec fn payload_byte(payload: nat, k: int) -> u8 {
    if k == 0 {
        (payload % 0x100) as u8
    } else if k == 1 {
        (payload / 0x100 % 0x100) as u8
    } else if k == 2 {
        (payload / 0x1_0000 % 0x100) as u8
    } else if k == 3 {
        (payload / 0x100_0000 % 0x100) as u8
    } else {
        (payload / 0x1_0000_0000 % 0x100) as u8
    }
}

/// Reads the groups of one variable-length field and regroups their payload
/// bits into five little-endian bytes.
///
/// On an error the reader stays where it was.
pub fn read_32(bytes: &mut ByteReader) -> (r: Result<[u8; 5], Error>)
    ensures
        final(bytes).source() == old(bytes).source(),
        match scan_groups(old(bytes).source(), old(bytes).position(), MAX_GROUPS as nat) {
            Ok((payload, count)) => r is Ok && payload < 0x8_0000_0000 && final(bytes).position()
                == old(bytes).position() + count && forall|k: int|
                0 <= k < 5 ==> r->Ok_0@[k] == payload_byte(payload, k),
            Err(e) => r == Err::<[u8; 5], Error>(e)
                && final(bytes).position() == old(bytes).position(),
        },
{
    match read_groups(bytes) {
        Ok(payload) => {
            let b0 = #[verifier::truncate]
            (payload as u8);
            let b1 = #[verifier::truncate]
            ((payload >> 8) as u8);
            let b2 = #[verifier::truncate]
            ((payload >> 16) as u8);
            let b3 = #[verifier::truncate]
            ((payload >> 24) as u8);
            let b4 = #[verifier::truncate]
            ((payload >> 32) as u8);
            assert(b0 == payload % 0x100 && b1 == payload / 0x100 % 0x100 && b2 == payload
                / 0x1_0000 % 0x100 && b3 == payload / 0x100_0000 % 0x100 && b4 == payload
                / 0x1_0000_0000 % 0x100) by (bit_vector)
                requires
                    b0 == payload as u8,
                    b1 == (payload >> 8) as u8,
                    b2 == (payload >> 16) as u8,
                    b3 == (payload >> 24) as u8,
                    b4 == (payload >> 32) as u8,
            ;
            let buf: [u8; 5] = [b0, b1, b2, b3, b4];
            Ok(buf)
        },
        Err(e) => Err(e),
    }
}

/// A source of variable-length fields.
pub trait Descriptor {
    /// The bytes that the fields are read from.
    spec fn input(&self) -> Seq<u8>;

    /// The index of the next byte to read.
    spec fn cursor(&self) -> int;

    /// Reads a field as a two's-complement number.
    fn read_i32_flex(&mut self) -> (r: Result<i32, Error>)
        ensures
            final(self).input() == old(self).input(),
            match var_32(old(self).input(), old(self).cursor()) {
                Ok((value, next)) => r == Ok::<i32, Error>(signed_of(value))
                    && final(self).cursor() == next,
                Err(e) => r == Err::<i32, Error>(e) && final(self).cursor() == old(self).cursor(),
            },
    ;

    /// Reads a field as an unsigned number.
    fn read_u32_flex(&mut self) -> (r: Result<u32, Error>)
        ensures
            final(self).input() == old(self).input(),
            match var_32(old(self).input(), old(self).cursor()) {
                Ok((value, next)) => r == Ok::<u32, Error>(value) && final(self).cursor() == next,
                Err(e) => r == Err::<u32, Error>(e) && final(self).cursor() == old(self).cursor(),
            },
    ;

    /// Reads a field as an IEEE-754 single-precision number, which is
    /// returned by its bit pattern.
    fn read_f32_flex(&mut self) -> (r: Result<u32, Error>)
        ensures
            final(self).input() == old(self).input(),
            match var_32(old(self).input(), old(self).cursor()) {
                Ok((value, next)) => r == Ok::<u32, Error>(value) && final(self).cursor() == next,
                Err(e) => r == Err::<u32, Error>(e) && final(self).cursor() == old(self).cursor(),
            },
    ;
}

impl<'a> Descriptor for ByteReader<'a> {
    open spec fn input(&self) -> Seq<u8> {
        self.source()
    }

    open spec fn cursor(&self) -> int {
        self.position()
    }

    fn read_i32_flex(&mut self) -> (r: Result<i32, Error>) {
        match self.read_u32_flex() {
            Ok(value) => {
                let signed = #[verifier::truncate]
                (value as i32);
                assert(signed as int == if value < 0x8000_0000 {
                    value as int
                } else {
                    value as int - 0x1_0000_0000
                }) by (bit_vector)
                    requires
                        signed == value as i32,
                ;
                Ok(signed)
            },
            Err(e) => Err(e),
        }
    }

    fn read_u32_flex(&mut self) -> (r: Result<u32, Error>) {
        match read_32(self) {
            Ok(buf) => {
                let value = byte_order::read_u32(slice_subrange(buf.as_slice(), 0, 4));
                proof {
                    let scanned = scan_groups(
                        old(self).source(),
                        old(self).position(),
                        MAX_GROUPS as nat,
                    );
                    let p = scanned->Ok_0.0 as u64;
                    assert(buf@[0] == payload_byte(p as nat, 0));
                    assert(buf@[1] == payload_byte(p as nat, 1));
                    assert(buf@[2] == payload_byte(p as nat, 2));
                    assert(buf@[3] == payload_byte(p as nat, 3));
                    assert(p % 0x1_0000_0000 == p % 0x100 + 0x100 * (p / 0x100 % 0x100) + 0x1_0000
                        * (p / 0x1_0000 % 0x100) + 0x100_0000 * (p / 0x100_0000 % 0x100))
                        by (bit_vector);
                }
                Ok(value)
            },
            Err(e) => Err(e),
        }
    }

    fn read_f32_flex(&mut self) -> (r: Result<u32, Error>) {
        self.read_u32_flex()
    }
}

} // verus!
