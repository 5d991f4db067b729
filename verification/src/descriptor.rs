//! The variable-length field codec and the cursor that it reads from.
//!
//! A field is one to five bytes. Each byte carries seven payload bits in its
//! low bits and a continuation flag in its top bit; the first byte carries
//! the lowest-order bits. The payloads put together, cut to 32 bits, are the
//! field's bit pattern, which is read as an unsigned number, as a
//! two's-complement number, or as an IEEE-754 single-precision pattern.

use crate::byte_order;
use crate::error::Error;
use vstd::prelude::*;
use vstd::slice::slice_subrange;

verus! {

/// The most bytes that one field may take.
pub const MAX_GROUPS: usize = 5;

/// The payloads of the groups that start at `at`, the first one lowest, with
/// the number of groups, or the reason why no field ends within `budget`
/// groups.
pub open spec fn scan_groups(s: Seq<u8>, at: int, budget: nat) -> Result<(nat, nat), Error>
    decreases budget,
{
    if budget == 0 {
        Err(Error::MalformedVarint)
    } else if at < 0 || at >= s.len() {
        Err(Error::TruncatedInput)
    } else if s[at] < 0x80 {
        Ok((s[at] as nat, 1))
    } else {
        match scan_groups(s, at + 1, (budget - 1) as nat) {
            Ok((rest, count)) => Ok(((s[at] - 0x80) as nat + 0x80 * rest, count + 1)),
            Err(e) => Err(e),
        }
    }
}

/// The 32-bit pattern of the field that starts at `at`, with the position
/// behind the field.
pub open spec fn var_32(s: Seq<u8>, at: int) -> Result<(u32, int), Error> {
    match scan_groups(s, at, MAX_GROUPS as nat) {
        Ok((payload, count)) => Ok(((payload % 0x1_0000_0000) as u32, at + count)),
        Err(e) => Err(e),
    }
}

/// The two's-complement reading of a 32-bit pattern.
pub open spec fn signed_of(bits: u32) -> i32 {
    if bits < 0x8000_0000 {
        bits as i32
    } else {
        (bits - 0x1_0000_0000) as i32
    }
}

/// The two's-complement reading of an 8-bit pattern.
pub open spec fn signed_byte(bits: u8) -> i8 {
    if bits < 0x80 {
        bits as i8
    } else {
        (bits - 0x100) as i8
    }
}

/// Whether the bytes from `at` on start with `expected`; an error where
/// fewer bytes are left than `expected` has.
pub open spec fn literal_at(s: Seq<u8>, at: int, expected: Seq<u8>) -> Result<bool, Error> {
    if 0 <= at && at + expected.len() <= s.len() {
        Ok(s.subrange(at, at + expected.len()) == expected)
    } else {
        Err(Error::TruncatedInput)
    }
}

/// The byte at `at`, with the position behind it.
pub open spec fn byte_at(s: Seq<u8>, at: int) -> Result<(u8, int), Error> {
    if 0 <= at < s.len() {
        Ok((s[at], at + 1))
    } else {
        Err(Error::TruncatedInput)
    }
}

/// The little-endian 32-bit number at `at`, with the position behind it.
pub open spec fn fixed_32(s: Seq<u8>, at: int) -> Result<(u32, int), Error> {
    if 0 <= at && at + 4 <= s.len() {
        Ok(
            (
                (s[at] as int + 0x100 * s[at + 1] as int + 0x1_0000 * s[at + 2] as int + 0x100_0000
                    * s[at + 3] as int) as u32,
                at + 4,
            ),
        )
    } else {
        Err(Error::TruncatedInput)
    }
}

/// The little-endian 16-bit number at `at`, with the position behind it.
pub open spec fn fixed_16(s: Seq<u8>, at: int) -> Result<(u16, int), Error> {
    if 0 <= at && at + 2 <= s.len() {
        Ok(((s[at] as int + 0x100 * s[at + 1] as int) as u16, at + 2))
    } else {
        Err(Error::TruncatedInput)
    }
}

/// The position `count` bytes behind `at`, or the end of the buffer where
/// that lies before it.
pub open spec fn skipped(s: Seq<u8>, at: int, count: int) -> int {
    if at + count <= s.len() {
        at + count
    } else {
        s.len() as int
    }
}

/// A read position in a byte buffer.
pub struct ByteReader<'a> {
    bytes: &'a [u8],
    pos: usize,
}

impl<'a> ByteReader<'a> {
    #[verifier::type_invariant]
    spec fn inv(self) -> bool {
        self.pos <= self.bytes@.len()
    }

    /// The whole buffer.
    pub closed spec fn source(&self) -> Seq<u8> {
        self.bytes@
    }

    /// The index of the next byte to read.
    pub closed spec fn position(&self) -> int {
        self.pos as int
    }

    /// A reader at the start of `bytes`.
    pub fn new(bytes: &'a [u8]) -> (reader: Self)
        ensures
            reader.source() == bytes@,
            reader.position() == 0,
    {
        ByteReader { bytes, pos: 0 }
    }

    /// The index of the next byte to read.
    pub fn offset(&self) -> (at: usize)
        ensures
            at == self.position(),
            at <= self.source().len(),
    {
        proof {
            use_type_invariant(self);
        }
        self.pos
    }

    /// Moves the read position to `at`.
    pub fn seek(&mut self, at: usize)
        requires
            at <= old(self).source().len(),
        ensures
            final(self).source() == old(self).source(),
            final(self).position() == at,
    {
        proof {
            use_type_invariant(&*self);
        }
        self.pos = at;
    }

    /// Reads one byte.
    pub fn read_u8(&mut self) -> (r: Result<u8, Error>)
        ensures
            final(self).source() == old(self).source(),
            match byte_at(old(self).source(), old(self).position()) {
                Ok((value, next)) => r == Ok::<u8, Error>(value) && final(self).position() == next,
                Err(e) => r == Err::<u8, Error>(e)
                    && final(self).position() == old(self).position(),
            },
    {
        proof {
            use_type_invariant(&*self);
        }
        if self.pos < self.bytes.len() {
            let value = self.bytes[self.pos];
            self.pos = self.pos + 1;
            Ok(value)
        } else {
            Err(Error::TruncatedInput)
        }
    }

    /// Reads one byte as a two's-complement number.
    pub fn read_i8(&mut self) -> (r: Result<i8, Error>)
        ensures
            final(self).source() == old(self).source(),
            match byte_at(old(self).source(), old(self).position()) {
                Ok((value, next)) => r == Ok::<i8, Error>(signed_byte(value))
                    && final(self).position() == next,
                Err(e) => r == Err::<i8, Error>(e)
                    && final(self).position() == old(self).position(),
            },
    {
        match self.read_u8() {
            Ok(value) => {
                let signed = #[verifier::truncate]
                (value as i8);
                assert(signed as int == if value < 0x80 {
                    value as int
                } else {
                    value as int - 0x100
                }) by (bit_vector)
                    requires
                        signed == value as i8,
                ;
                Ok(signed)
            },
            Err(e) => Err(e),
        }
    }

    /// Reads a fixed-width little-endian 32-bit number.
    pub fn read_u32(&mut self) -> (r: Result<u32, Error>)
        ensures
            final(self).source() == old(self).source(),
            match fixed_32(old(self).source(), old(self).position()) {
                Ok((value, next)) => r == Ok::<u32, Error>(value) && final(self).position() == next,
                Err(e) => r == Err::<u32, Error>(e)
                    && final(self).position() == old(self).position(),
            },
    {
        proof {
            use_type_invariant(&*self);
        }
        if self.bytes.len() - self.pos < 4 {
            return Err(Error::TruncatedInput);
        }
        let field = slice_subrange(self.bytes, self.pos, self.pos + 4);
        let value = byte_order::read_u32(field);
        self.pos = self.pos + 4;
        Ok(value)
    }

    /// Reads a fixed-width little-endian 16-bit number.
    pub fn read_u16(&mut self) -> (r: Result<u16, Error>)
        ensures
            final(self).source() == old(self).source(),
            match fixed_16(old(self).source(), old(self).position()) {
                Ok((value, next)) => r == Ok::<u16, Error>(value) && final(self).position() == next,
                Err(e) => r == Err::<u16, Error>(e)
                    && final(self).position() == old(self).position(),
            },
    {
        proof {
            use_type_invariant(&*self);
        }
        if self.bytes.len() - self.pos < 2 {
            return Err(Error::TruncatedInput);
        }
        let field = slice_subrange(self.bytes, self.pos, self.pos + 2);
        let value = byte_order::read_u16(field);
        self.pos = self.pos + 2;
        Ok(value)
    }

    /// Steps over `count` bytes, or to the end of the buffer where fewer are
    /// left.
    pub fn skip(&mut self, count: usize)
        ensures
            final(self).source() == old(self).source(),
            final(self).position() == skipped(
                old(self).source(),
                old(self).position(),
                count as int,
            ),
    {
        proof {
            use_type_invariant(&*self);
        }
        if self.bytes.len() - self.pos < count {
            self.pos = self.bytes.len();
        } else {
            self.pos = self.pos + count;
        }
    }

    /// Hands out the next `count` bytes, or all that are left where those
    /// are fewer, and steps over them.
    pub fn take(&mut self, count: usize) -> (r: &'a [u8])
        ensures
            final(self).source() == old(self).source(),
            final(self).position() == skipped(
                old(self).source(),
                old(self).position(),
                count as int,
            ),
            r@ == old(self).source().subrange(old(self).position(), final(self).position()),
    {
        proof {
            use_type_invariant(&*self);
        }
        let start = self.pos;
        if self.bytes.len() - self.pos < count {
            self.pos = self.bytes.len();
        } else {
            self.pos = self.pos + count;
        }
        slice_subrange(self.bytes, start, self.pos)
    }

    /// Tells whether the bytes at the read position are exactly `expected`,
    /// and steps over them if they are.
    pub fn read_exact(&mut self, expected: &[u8]) -> (r: Result<bool, Error>)
        ensures
            final(self).source() == old(self).source(),
            match literal_at(old(self).source(), old(self).position(), expected@) {
                Ok(true) => r == Ok::<bool, Error>(true)
                    && final(self).position() == old(self).position() + expected@.len(),
                Ok(false) => r == Ok::<bool, Error>(false)
                    && final(self).position() == old(self).position(),
                Err(e) => r == Err::<bool, Error>(e)
                    && final(self).position() == old(self).position(),
            },
    {
        proof {
            use_type_invariant(&*self);
        }
        let count = expected.len();
        if self.bytes.len() - self.pos < count {
            return Err(Error::TruncatedInput);
        }
        let mut k: usize = 0;
        while k < count
            invariant
                k <= count,
                count == expected@.len(),
                self.pos + count <= self.bytes@.len(),
                self.bytes@.len() <= usize::MAX,
                self.pos == old(self).pos,
                self.bytes == old(self).bytes,
                forall|j: int| 0 <= j < k ==> self.bytes@[self.pos + j] == expected@[j],
            decreases count - k,
        {
            if self.bytes[self.pos + k] != expected[k] {
                assert(self.bytes@.subrange(self.pos as int, self.pos + count)[k as int]
                    != expected@[k as int]);
                return Ok(false);
            }
            k = k + 1;
        }
        assert(self.bytes@.subrange(self.pos as int, self.pos + count) =~= expected@);
        self.pos = self.pos + count;
        Ok(true)
    }

    /// Reads a variable-length field as an unsigned number.
    pub fn read_var_u32(&mut self) -> (r: Result<u32, Error>)
        ensures
            final(self).source() == old(self).source(),
            match var_32(old(self).source(), old(self).position()) {
                Ok((value, next)) => r == Ok::<u32, Error>(value) && final(self).position() == next,
                Err(e) => r == Err::<u32, Error>(e)
                    && final(self).position() == old(self).position(),
            },
    {
        read_var_32(self)
    }

    /// Reads a variable-length field as a two's-complement number.
    pub fn read_var_i32(&mut self) -> (r: Result<i32, Error>)
        ensures
            final(self).source() == old(self).source(),
            match var_32(old(self).source(), old(self).position()) {
                Ok((value, next)) => r == Ok::<i32, Error>(signed_of(value))
                    && final(self).position() == next,
                Err(e) => r == Err::<i32, Error>(e)
                    && final(self).position() == old(self).position(),
            },
    {
        match read_var_32(self) {
            Ok(value) => {
                let signed = #[verifier::truncate]
                (value as i32);
                assert(signed as int == if value < 0x8000_0000 {
                    value as int
                } else {
                    value as int - 0x1_0000_0000
                }) by (bit_vector)
                    requires
                        signed == value as i32,
                ;
                Ok(signed)
            },
            Err(e) => Err(e),
        }
    }

    /// Reads a variable-length field as an IEEE-754 single-precision number,
    /// which is returned by its bit pattern.
    pub fn read_var_f32(&mut self) -> (r: Result<u32, Error>)
        ensures
            final(self).source() == old(self).source(),
            match var_32(old(self).source(), old(self).position()) {
                Ok((value, next)) => r == Ok::<u32, Error>(value) && final(self).position() == next,
                Err(e) => r == Err::<u32, Error>(e)
                    && final(self).position() == old(self).position(),
            },
    {
        read_var_32(self)
    }
}


/// Reads the groups of one variable-length field and returns their payloads
/// put together, all 35 bits of them.
///
/// On an error the reader stays where it was.
pub fn read_groups(bytes: &mut ByteReader) -> (r: Result<u64, Error>)
    ensures
        final(bytes).source() == old(bytes).source(),
        match scan_groups(old(bytes).source(), old(bytes).position(), MAX_GROUPS as nat) {
            Ok((payload, count)) => r == Ok::<u64, Error>(payload as u64) && payload
                < 0x8_0000_0000 && final(bytes).position() == old(bytes).position() + count,
            Err(e) => r == Err::<u64, Error>(e) && final(bytes).position() == old(bytes).position(),
        },
{
    proof {
        use_type_invariant(&*bytes);
    }
    let ghost s = bytes.bytes@;
    let start = bytes.pos;
    let left = bytes.bytes.len() - start;
    let mut payload: u64 = 0;
    let mut weight: u64 = 1;
    let mut i: usize = 0;
    while i < MAX_GROUPS
        invariant
            i <= MAX_GROUPS,
            s == bytes.bytes@,
            s == old(bytes).source(),
            start == bytes.pos,
            start == old(bytes).position(),
            start + left == s.len(),
            s.len() <= usize::MAX,
            (i == 0 && weight == 1) || (i == 1 && weight == 0x80) || (i == 2 && weight == 0x4000)
                || (i == 3 && weight == 0x20_0000) || (i == 4 && weight == 0x1000_0000) || (i == 5
                && weight == 0x8_0000_0000),
            payload < weight,
            match scan_groups(s, start + i, (MAX_GROUPS - i) as nat) {
                Ok((rest, count)) => scan_groups(s, start as int, MAX_GROUPS as nat) == Ok::<
                    (nat, nat),
                    Error,
                >((payload as nat + weight as nat * rest, i as nat + count)),
                Err(e) => scan_groups(s, start as int, MAX_GROUPS as nat) == Err::<
                    (nat, nat),
                    Error,
                >(e),
            },
        decreases MAX_GROUPS - i,
    {
        if i >= left {
            return Err(Error::TruncatedInput);
        }
        let byte = bytes.bytes[start + i];
        let group = byte & 0x7f;
        assert(group == byte % 0x80 && (byte & 0x80 == 0 <==> byte < 0x80)) by (bit_vector)
            requires
                group == byte & 0x7f,
        ;
        let ghost before = payload;
        assert(group as u64 * weight <= 0x7f * weight) by (nonlinear_arith)
            requires
                group <= 0x7f,
        ;
        payload = payload + (group as u64) * weight;
        if byte & 0x80 == 0 {
            bytes.pos = start + i + 1;
            return Ok(payload);
        }
        proof {
            match scan_groups(s, start + i + 1, (MAX_GROUPS - i - 1) as nat) {
                Ok((rest, count)) => {
                    assert(before as nat + weight as nat * ((byte - 0x80) as nat + 0x80 * rest)
                        == payload as nat + (weight as nat * 0x80) * rest) by (nonlinear_arith)
                        requires
                            byte >= 0x80,
                            payload == before + (byte - 0x80) * weight,
                    ;
                },
                Err(e) => {},
            }
        }
        weight = weight * 0x80;
        i = i + 1;
    }
    Err(Error::MalformedVarint)
}

/// Reads one variable-length field and returns its 32-bit pattern.
///
/// On an error the reader stays where it was.
pub fn read_var_32(bytes: &mut ByteReader) -> (r: Result<u32, Error>)
    ensures
        final(bytes).source() == old(bytes).source(),
        match var_32(old(bytes).source(), old(bytes).position()) {
            Ok((value, next)) => r == Ok::<u32, Error>(value) && final(bytes).position() == next,
            Err(e) => r == Err::<u32, Error>(e) && final(bytes).position() == old(bytes).position(),
        },
{
    match read_groups(bytes) {
        Ok(payload) => {
            let value = #[verifier::truncate]
            (payload as u32);
            assert(value == payload % 0x1_0000_0000) by (bit_vector)
                requires
                    value == payload as u32,
            ;
            Ok(value)
        },
        Err(e) => Err(e),
    }
}

/// The bytes of the field that holds `value`: as few groups as its bits need.
pub open spec fn encoding(value: nat) -> Seq<u8>
    decreases value,
{
    if value < 0x80 {
        seq![value as u8]
    } else {
        seq![(value % 0x80 + 0x80) as u8] + encoding(value / 0x80)
    }
}

/// The 32-bit pattern of a two's-complement number.
pub open spec fn pattern_of(value: i32) -> u32 {
    if value < 0 {
        (value + 0x1_0000_0000) as u32
    } else {
        value as u32
    }
}

/// The numbers that `budget` groups can hold lie below this: 128 to the power
/// `budget`.
pub open spec fn capacity(budget: nat) -> nat
    decreases budget,
{
    if budget == 0 {
        1
    } else {
        0x80 * capacity((budget - 1) as nat)
    }
}

/// Writes `value` as a variable-length field.
pub fn write_var_32(value: u32) -> (out: Vec<u8>)
    ensures
        out@ == encoding(value as nat),
{
    let mut out: Vec<u8> = Vec::new();
    let mut rest: u32 = value;
    while rest >= 0x80
        invariant
            encoding(value as nat) == out@ + encoding(rest as nat),
        decreases rest,
    {
        let group: u8 = (rest % 0x80) as u8 + 0x80;
        proof {
            assert(out@.push(group) + encoding(rest as nat / 0x80) =~= out@ + encoding(
                rest as nat,
            ));
        }
        out.push(group);
        rest = rest / 0x80;
    }
    proof {
        assert(out@.push(rest as u8) =~= out@ + encoding(rest as nat));
    }
    out.push(rest as u8);
    out
}

proof fn lemma_scan_encoding(value: nat, s: Seq<u8>, at: int, budget: nat)
    requires
        0 <= at,
        budget >= 1,
        value < capacity(budget),
        at + encoding(value).len() <= s.len(),
        forall|k: int| 0 <= k < encoding(value).len()
            ==> s[at + k] == #[trigger] encoding(value)[k],
    ensures
        scan_groups(s, at, budget) == Ok::<(nat, nat), Error>((value, encoding(value).len())),
    decreases budget,
{
    let enc = encoding(value);
    assert(s[at + 0] == enc[0]);
    if value >= 0x80 {
        let rest = value / 0x80;
        let tail = encoding(rest);
        assert(capacity(0) == 1);
        assert(rest < capacity((budget - 1) as nat));
        assert forall|k: int| 0 <= k < tail.len() implies s[at + 1 + k] == #[trigger] tail[k] by {
            assert(enc[k + 1] == tail[k]);
            assert(s[at + (k + 1)] == enc[k + 1]);
        }
        lemma_scan_encoding(rest, s, at + 1, (budget - 1) as nat);
    }
}

/// Decoding undoes encoding: where the bytes of the field that holds `value`
/// stand at `at`, the field read there is `value`, and the position behind
/// it is the end of those bytes.
pub proof fn lemma_var_32_round_trip(value: u32, s: Seq<u8>, at: int)
    requires
        0 <= at,
        at + encoding(value as nat).len() <= s.len(),
        s.subrange(at, at + encoding(value as nat).len()) == encoding(value as nat),
    ensures
        var_32(s, at) == Ok::<(u32, int), Error>((value, at + encoding(value as nat).len())),
        1 <= encoding(value as nat).len() <= MAX_GROUPS,
{
    let enc = encoding(value as nat);
    assert(capacity(5) == 0x8_0000_0000) by {
        reveal_with_fuel(capacity, 6);
    }
    assert forall|k: int| 0 <= k < enc.len() implies s[at + k] == #[trigger] enc[k] by {
        assert(s.subrange(at, at + enc.len())[k] == s[at + k]);
    }
    lemma_scan_encoding(value as nat, s, at, 5);
    lemma_scan_count(s, at, 5);
}

/// A field that is read takes at least one byte and at most `budget`.
pub proof fn lemma_scan_count(s: Seq<u8>, at: int, budget: nat)
    ensures
        match scan_groups(s, at, budget) {
            Ok((payload, count)) => 1 <= count <= budget && at + count <= s.len() && payload
                < capacity(count),
            Err(_) => true,
        },
    decreases budget,
{
    if budget > 0 && at < s.len() && s[at] >= 0x80 {
        lemma_scan_count(s, at + 1, (budget - 1) as nat);
    }
    assert(capacity(1) == 0x80) by {
        reveal_with_fuel(capacity, 2);
    }
}

/// Reading a pattern as a two's-complement number undoes taking the pattern
/// of one, and the other way round.
pub proof fn lemma_signed_round_trip(value: i32, bits: u32)
    ensures
        signed_of(pattern_of(value)) == value,
        pattern_of(signed_of(bits)) == bits,
{
}

} // verus!
