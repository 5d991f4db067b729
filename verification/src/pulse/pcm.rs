//! Linear PCM: the buffer that a rendering gives, its samples by channel,
//! and its layout as a RIFF/WAVE file.

use crate::byte_order;
use crate::byte_order::as_signed_16;
use crate::descriptor::fixed_16;
use crate::descriptor::fixed_32;
use crate::descriptor::literal_at;
use crate::descriptor::skipped;
use crate::descriptor::ByteReader;
use crate::error::Error;
use vstd::prelude::*;
use vstd::slice::slice_subrange;
use vstd::slice::slice_to_vec;

verus! {

/// The form of the samples in a buffer.
#[derive(Clone, Copy, Debug, PartialEq, Eq, Structural)]
pub struct PcmWaveFormat {
    /// The number of channels: 1 or 2.
    pub ch: u16,
    /// The samples per second.
    pub sps: u32,
    /// The bits per sample: 8 or 16.
    pub bps: u16,
}

impl PcmWaveFormat {
    /// One or two channels of 8 or 16 bits, at a rate whose bytes per second
    /// fit in 32 bits.
    pub open spec fn wf(self) -> bool {
        &&& (self.ch == 1 || self.ch == 2)
        &&& (self.bps == 8 || self.bps == 16)
        &&& self.sps * self.ch * self.bps <= u32::MAX
    }

    /// The bytes of one sample.
    pub open spec fn sample_size(self) -> int {
        self.bps as int / 8
    }

    /// The bytes of one frame: a sample for each channel.
    pub open spec fn frame_size(self) -> int {
        self.ch * self.sample_size()
    }
}

/// A buffer of interleaved samples.
#[derive(Clone, Debug, PartialEq, Eq)]
pub struct Pcm {
    /// The form of the samples.
    pub fmt: PcmWaveFormat,
    /// The samples, frame by frame, little-endian where they have two bytes.
    pub smp: Vec<u8>,
}

/// A type of sample that the samples of a buffer can be turned into.
///
/// A buffer holds 8-bit samples as unsigned numbers around 128 and 16-bit
/// samples as two's-complement numbers around zero.
pub trait Sample: Sized {
    /// The sample that stands for an 8-bit sample of a buffer.
    spec fn of_u8(bits: u8) -> Self;

    /// The sample that stands for a 16-bit sample of a buffer.
    spec fn of_i16(bits: i16) -> Self;

    /// Turns an 8-bit sample of a buffer into a sample of this type.
    fn from_u8(bits: u8) -> (r: Self)
        ensures
            r == Self::of_u8(bits),
    ;

    /// Turns a 16-bit sample of a buffer into a sample of this type.
    fn from_i16(bits: i16) -> (r: Self)
        ensures
            r == Self::of_i16(bits),
    ;
}

impl Sample for u8 {
    open spec fn of_u8(bits: u8) -> u8 {
        bits
    }

    /// The high byte, moved from around zero to around 128.
    open spec fn of_i16(bits: i16) -> u8 {
        ((bits + 0x8000) / 0x100) as u8
    }

    #[inline]
    fn from_u8(bits: u8) -> (r: u8) {
        bits
    }

    #[inline]
    fn from_i16(bits: i16) -> (r: u8) {
        let high = #[verifier::truncate]
        ((bits >> 8) as u8);
        let r = high ^ 0x80;
        assert(r as int == (bits as int + 0x8000) / 0x100) by (bit_vector)
            requires
                r == ((bits >> 8) as u8) ^ 0x80,
        ;
        r
    }
}

impl Sample for i8 {
    /// The sample moved from around 128 to around zero.
    open spec fn of_u8(bits: u8) -> i8 {
        (bits - 0x80) as i8
    }

    /// The high byte.
    open spec fn of_i16(bits: i16) -> i8 {
        (bits as int / 0x100) as i8
    }

    #[inline]
    fn from_u8(bits: u8) -> (r: i8) {
        let r = #[verifier::truncate]
        ((bits ^ 0x80) as i8);
        assert(r as int == bits as int - 0x80) by (bit_vector)
            requires
                r == (bits ^ 0x80) as i8,
        ;
        r
    }

    #[inline]
    fn from_i16(bits: i16) -> (r: i8) {
        let r = #[verifier::truncate]
        ((bits >> 8) as i8);
        assert(r as int == bits as int / 0x100) by (bit_vector)
            requires
                r == (bits >> 8) as i8,
        ;
        r
    }
}

impl Sample for u16 {
    /// The sample as the high byte.
    open spec fn of_u8(bits: u8) -> u16 {
        (bits * 0x100) as u16
    }

    /// The sample moved from around zero to around 32768.
    open spec fn of_i16(bits: i16) -> u16 {
        (bits + 0x8000) as u16
    }

    #[inline]
    fn from_u8(bits: u8) -> (r: u16) {
        (bits as u16) * 0x100
    }

    #[inline]
    fn from_i16(bits: i16) -> (r: u16) {
        (bits as i32 + 0x8000) as u16
    }
}

impl Sample for i16 {
    /// The sample moved from around 128 to around zero, as the high byte.
    open spec fn of_u8(bits: u8) -> i16 {
        ((bits - 0x80) * 0x100) as i16
    }

    open spec fn of_i16(bits: i16) -> i16 {
        bits
    }

    #[inline]
    fn from_u8(bits: u8) -> (r: i16) {
        ((bits as i32 - 0x80) * 0x100) as i16
    }

    #[inline]
    fn from_i16(bits: i16) -> (r: i16) {
        bits
    }
}


/// The bytes that a RIFF file starts with.
pub const RIFF_CODE: [u8; 4] = [0x52, 0x49, 0x46, 0x46];

/// The bytes that name the form of the file and open its format chunk.
pub const WAVE_FMT_CODE: [u8; 8] = [0x57, 0x41, 0x56, 0x45, 0x66, 0x6d, 0x74, 0x20];

/// The bytes that open the data chunk.
pub const DATA_CODE: [u8; 4] = [0x64, 0x61, 0x74, 0x61];

/// The bytes of a file before its samples.
pub const HEADER_SIZE: usize = 44;

/// The two little-endian bytes of `n`.
pub open spec fn le_16(n: int) -> Seq<u8> {
    seq![(n % 0x100) as u8, (n / 0x100) as u8]
}

/// The four little-endian bytes of `n`.
pub open spec fn le_32(n: int) -> Seq<u8> {
    seq![
        (n % 0x100) as u8,
        (n / 0x100 % 0x100) as u8,
        (n / 0x1_0000 % 0x100) as u8,
        (n / 0x100_0000) as u8,
    ]
}

/// The format chunk without its header: the tag of linear PCM, the channels,
/// the rate, the bytes per second, the bytes per frame and the bits per
/// sample.
pub open spec fn format_chunk(fmt: PcmWaveFormat) -> Seq<u8> {
    le_16(1) + le_16(fmt.ch as int) + le_32(fmt.sps as int) + le_32(
        fmt.sps * fmt.ch * fmt.bps / 8,
    ) + le_16(fmt.ch * fmt.bps / 8) + le_16(fmt.bps as int)
}

/// The RIFF/WAVE file that holds the samples `smp` in the form `fmt`.
pub open spec fn wave_file(fmt: PcmWaveFormat, smp: Seq<u8>) -> Seq<u8> {
    RIFF_CODE@ + le_32(HEADER_SIZE - 8 + smp.len()) + WAVE_FMT_CODE@ + le_32(16) + format_chunk(fmt)
        + DATA_CODE@ + le_32(smp.len() as int) + smp
}

/// The form that a format chunk of `size` bytes at `at` states, with the
/// position behind the chunk.
///
/// The chunk has at least 16 bytes. It states linear PCM, a well-formed
/// form, and the bytes per second and per frame that follow from the form.
pub open spec fn format_at(s: Seq<u8>, at: int, size: u32) -> Result<(PcmWaveFormat, int), Error> {
    if size < 16 {
        Err(Error::UnsupportedTarget)
    } else {
        match fixed_16(s, at) {
            Err(e) => Err(e),
            Ok((id, at_ch)) => match fixed_16(s, at_ch) {
                Err(e) => Err(e),
                Ok((ch, at_sps)) => match fixed_32(s, at_sps) {
                    Err(e) => Err(e),
                    Ok((sps, at_rate)) => match fixed_32(s, at_rate) {
                        Err(e) => Err(e),
                        Ok((byte_per_sec, at_block)) => match fixed_16(s, at_block) {
                            Err(e) => Err(e),
                            Ok((block_size, at_bps)) => match fixed_16(s, at_bps) {
                                Err(e) => Err(e),
                                Ok((bps, behind)) => {
                                    let fmt = PcmWaveFormat { ch, sps, bps };
                                    if id == 1 && fmt.wf() && byte_per_sec == sps * ch * bps / 8
                                        && block_size == ch * bps / 8 {
                                        Ok((fmt, skipped(s, behind, size - 16)))
                                    } else {
                                        Err(Error::UnsupportedTarget)
                                    }
                                },
                            },
                        },
                    },
                },
            },
        }
    }
}

/// The position of the size of the data chunk, which is looked for from `at`
/// on: a chunk with another name is stepped over.
pub open spec fn data_at(s: Seq<u8>, at: int) -> Result<int, Error>
    decreases s.len() - at,
{
    match literal_at(s, at, DATA_CODE@) {
        Err(e) => Err(e),
        Ok(true) => Ok(at + 4),
        Ok(false) => match fixed_32(s, at + 4) {
            Err(e) => Err(e),
            Ok((size, behind)) => data_at(s, skipped(s, behind, size as int)),
        },
    }
}

/// The buffer that the RIFF/WAVE file `s` holds: its form, and the samples
/// of its data chunk, as many of them as the file has.
pub open spec fn wave_at(s: Seq<u8>) -> Result<(PcmWaveFormat, Seq<u8>), Error> {
    match literal_at(s, 0, RIFF_CODE@) {
        Err(e) => Err(e),
        Ok(false) => Err(Error::BadSignature),
        Ok(true) => match literal_at(s, skipped(s, 4, 4), WAVE_FMT_CODE@) {
            Err(e) => Err(e),
            Ok(false) => Err(Error::BadSignature),
            Ok(true) => match fixed_32(s, 16) {
                Err(e) => Err(e),
                Ok((size, at_fmt)) => match format_at(s, at_fmt, size) {
                    Err(e) => Err(e),
                    Ok((fmt, at_chunks)) => match data_at(s, at_chunks) {
                        Err(e) => Err(e),
                        Ok(at_size) => match fixed_32(s, at_size) {
                            Err(e) => Err(e),
                            Ok((count, at_smp)) => Ok(
                                (fmt, s.subrange(at_smp, skipped(s, at_smp, count as int))),
                            ),
                        },
                    },
                },
            },
        },
    }
}

/// The sample with the index `at`, counted over all channels, turned into a
/// sample of type `T`.
pub open spec fn stored_sample<T: Sample>(smp: Seq<u8>, bps: u16, at: int) -> T {
    if bps == 8 {
        T::of_u8(smp[at])
    } else {
        T::of_i16(as_signed_16(smp[2 * at] as nat + 0x100 * smp[2 * at + 1] as nat) as i16)
    }
}

fn put_all(out: &mut Vec<u8>, bytes: &[u8])
    ensures
        final(out)@ == old(out)@ + bytes@,
{
    let mut k: usize = 0;
    while k < bytes.len()
        invariant
            k <= bytes@.len(),
            out@ == old(out)@ + bytes@.subrange(0, k as int),
        decreases bytes@.len() - k,
    {
        proof {
            assert(bytes@.subrange(0, k as int).push(bytes@[k as int]) =~= bytes@.subrange(
                0,
                k + 1,
            ));
            assert((old(out)@ + bytes@.subrange(0, k as int)).push(bytes@[k as int]) =~= old(out)@
                + bytes@.subrange(0, k + 1));
        }
        out.push(bytes[k]);
        k = k + 1;
    }
    assert(bytes@.subrange(0, k as int) =~= bytes@);
}

fn put_u16(out: &mut Vec<u8>, n: u16)
    ensures
        final(out)@ == old(out)@ + le_16(n as int),
{
    let bytes = byte_order::u16_bytes(n);
    assert(bytes@ =~= le_16(n as int));
    put_all(out, bytes.as_slice());
}

fn put_u32(out: &mut Vec<u8>, n: u32)
    ensures
        final(out)@ == old(out)@ + le_32(n as int),
{
    let bytes = byte_order::u32_bytes(n);
    assert(bytes@ =~= le_32(n as int));
    put_all(out, bytes.as_slice());
}

impl PcmWaveFormat {
    /// Reads a format chunk of `size` bytes, without its header.
    ///
    /// Fails with `TruncatedInput` where the buffer ends within the first 16
    /// bytes of the chunk, and with `UnsupportedTarget` where the chunk is
    /// shorter than that or states anything but linear PCM in a well-formed
    /// form with the bytes per second and per frame that follow from it.
    pub fn read_chunk(bytes: &mut ByteReader, size: u32) -> (r: Result<Self, Error>)
        ensures
            final(bytes).source() == old(bytes).source(),
            match format_at(old(bytes).source(), old(bytes).position(), size) {
                Ok((fmt, next)) => r == Ok::<Self, Error>(fmt) && final(bytes).position() == next
                    && fmt.wf(),
                Err(e) => r == Err::<Self, Error>(e),
            },
    {
        if size < 16 {
            return Err(Error::UnsupportedTarget);
        }
        let id = bytes.read_u16()?;
        let ch = bytes.read_u16()?;
        let sps = bytes.read_u32()?;
        let byte_per_sec = bytes.read_u32()?;
        let block_size = bytes.read_u16()?;
        let bps = bytes.read_u16()?;
        bytes.skip((size - 16) as usize);
        let fmt = PcmWaveFormat { ch, sps, bps };
        if id != 1 || !fmt.is_valid() {
            return Err(Error::UnsupportedTarget);
        }
        assert(ch * bps <= 32) by (nonlinear_arith)
            requires
                1 <= ch <= 2,
                8 <= bps <= 16,
        ;
        assert(sps * (ch as u32) <= u32::MAX && sps * (ch as u32) * (bps as u32) == sps * ch * bps)
            by (nonlinear_arith)
            requires
                sps * ch * bps <= u32::MAX,
                1 <= ch,
                1 <= bps,
        ;
        if byte_per_sec != sps * (ch as u32) * (bps as u32) / 8 || block_size != ch * bps / 8 {
            return Err(Error::UnsupportedTarget);
        }
        Ok(fmt)
    }

    /// Tells whether the form is well formed.
    pub fn is_valid(&self) -> (r: bool)
        ensures
            r == self.wf(),
    {
        if !(self.ch == 1 || self.ch == 2) || !(self.bps == 8 || self.bps == 16) {
            return false;
        }
        assert(self.ch * self.bps <= 32) by (nonlinear_arith)
            requires
                1 <= self.ch <= 2,
                8 <= self.bps <= 16,
        ;
        let scale: u64 = (self.ch * self.bps) as u64;
        assert(self.sps as u64 * scale <= 0xffff_ffff * 32) by (nonlinear_arith)
            requires
                self.sps <= 0xffff_ffff,
                scale <= 32,
        ;
        assert(self.sps * self.ch * self.bps == self.sps as u64 * scale) by (nonlinear_arith)
            requires
                scale == self.ch * self.bps,
        ;
        self.sps as u64 * scale <= u32::MAX as u64
    }

    /// Appends the format chunk, without its header.
    pub fn write_chunk(&self, writer: &mut Vec<u8>)
        requires
            self.wf(),
        ensures
            final(writer)@ == old(writer)@ + format_chunk(*self),
    {
        let ch = self.ch;
        let sps = self.sps;
        let bps = self.bps;
        assert(sps * (ch as u32) <= u32::MAX && sps * (ch as u32) * (bps as u32) <= u32::MAX)
            by (nonlinear_arith)
            requires
                sps * ch * bps <= u32::MAX,
                1 <= ch,
                1 <= bps,
        ;
        assert(sps * (ch as u32) * (bps as u32) == sps * ch * bps);
        assert(ch * bps <= 32) by (nonlinear_arith)
            requires
                1 <= ch <= 2,
                8 <= bps <= 16,
        ;
        let ghost start = writer@;
        put_u16(writer, 1);
        put_u16(writer, ch);
        put_u32(writer, sps);
        put_u32(writer, sps * (ch as u32) * (bps as u32) / 8);
        put_u16(writer, ch * bps / 8);
        put_u16(writer, bps);
        assert(writer@ =~= start + format_chunk(*self));
    }
}

impl Pcm {
    /// Reads a buffer from a RIFF/WAVE file.
    ///
    /// Chunks between the format chunk and the data chunk are stepped over.
    /// A data chunk that states more samples than the file has gives those
    /// that the file has. Fails with `BadSignature` where the file does not
    /// start as a RIFF/WAVE file with a format chunk, with `TruncatedInput`
    /// where it ends before the samples, and as `read_chunk` does.
    pub fn new(bytes: &[u8]) -> (r: Result<Self, Error>)
        ensures
            match wave_at(bytes@) {
                Ok((fmt, smp)) => r is Ok && r->Ok_0.fmt == fmt && r->Ok_0.smp@ == smp && fmt.wf(),
                Err(e) => r == Err::<Self, Error>(e),
            },
    {
        let mut reader = ByteReader::new(bytes);
        if !reader.read_exact(RIFF_CODE.as_slice())? {
            return Err(Error::BadSignature);
        }
        reader.skip(4);
        if !reader.read_exact(WAVE_FMT_CODE.as_slice())? {
            return Err(Error::BadSignature);
        }
        let size = reader.read_u32()?;
        let fmt = PcmWaveFormat::read_chunk(&mut reader, size)?;
        let ghost at_chunks = reader.position();
        loop
            invariant_except_break
                data_at(bytes@, at_chunks) == data_at(bytes@, reader.position()),
            invariant
                reader.source() == bytes@,
                0 <= reader.position() <= bytes@.len(),
                data_at(bytes@, at_chunks) is Err ==> wave_at(bytes@) == Err::<
                    (PcmWaveFormat, Seq<u8>),
                    Error,
                >(data_at(bytes@, at_chunks)->Err_0),
            ensures
                data_at(bytes@, at_chunks) == Ok::<int, Error>(reader.position()),
            decreases bytes@.len() - reader.position(),
        {
            if reader.read_exact(DATA_CODE.as_slice())? {
                break ;
            }
            reader.skip(4);
            let size = reader.read_u32()?;
            reader.skip(size as usize);
        }
        let count = reader.read_u32()?;
        let smp = slice_to_vec(reader.take(count as usize));
        Ok(Pcm { fmt, smp })
    }

    /// The form is well formed, and the samples are whole frames.
    pub open spec fn wf(&self) -> bool {
        &&& self.fmt.wf()
        &&& self.smp@.len() as int % self.fmt.frame_size() == 0
    }

    /// The number of frames.
    pub open spec fn frames(&self) -> int {
        self.smp@.len() as int / self.fmt.frame_size()
    }

    /// Tells whether the form is well formed and the samples are whole
    /// frames.
    pub fn is_valid(&self) -> (r: bool)
        ensures
            r == self.wf(),
    {
        if !self.fmt.is_valid() {
            return false;
        }
        let size: usize = (self.fmt.ch * (self.fmt.bps / 8)) as usize;
        self.smp.len() % size == 0
    }

    /// Lays the buffer out as a RIFF/WAVE file.
    pub fn into_bytes(self) -> (bytes: Vec<u8>)
        requires
            self.fmt.wf(),
            HEADER_SIZE - 8 + self.smp@.len() <= u32::MAX,
        ensures
            bytes@ == wave_file(self.fmt, self.smp@),
    {
        let size = HEADER_SIZE - 8 + self.smp.len();
        let mut bytes: Vec<u8> = Vec::new();
        put_all(&mut bytes, RIFF_CODE.as_slice());
        put_u32(&mut bytes, size as u32);
        put_all(&mut bytes, WAVE_FMT_CODE.as_slice());
        put_u32(&mut bytes, 16);
        self.fmt.write_chunk(&mut bytes);
        put_all(&mut bytes, DATA_CODE.as_slice());
        put_u32(&mut bytes, self.smp.len() as u32);
        put_all(&mut bytes, self.smp.as_slice());
        assert(bytes@ =~= wave_file(self.fmt, self.smp@));
        bytes
    }

    /// The samples by channel, each turned into a sample of type `T`.
    pub fn to_channels<T: Sample>(&self) -> (channels: Vec<Vec<T>>)
        requires
            self.wf(),
        ensures
            channels@.len() == self.fmt.ch,
            forall|c: int|
                0 <= c < self.fmt.ch ==> (#[trigger] channels@[c])@.len() == self.frames(),
            forall|c: int, f: int|
                0 <= c < self.fmt.ch && 0 <= f < self.frames() ==> #[trigger] channels@[c]@[f]
                    == stored_sample::<T>(self.smp@, self.fmt.bps, f * self.fmt.ch + c),
    {
        let ch = self.fmt.ch as usize;
        let bps = self.fmt.bps;
        let width = (bps / 8) as usize;
        assert(1 <= ch * width <= 4) by (nonlinear_arith)
            requires
                1 <= ch <= 2,
                1 <= width <= 2,
        ;
        let frames = self.smp.len() / (ch * width);
        assert(frames * (ch * width) <= self.smp@.len()) by (nonlinear_arith)
            requires
                frames == self.smp@.len() as int / ((ch * width) as int),
                ch * width >= 1,
        ;
        let mut channels: Vec<Vec<T>> = Vec::with_capacity(ch);
        let mut c: usize = 0;
        while c < ch
            invariant
                c <= ch,
                ch == self.fmt.ch,
                bps == self.fmt.bps,
                self.fmt.wf(),
                width == bps / 8,
                frames == self.frames(),
                frames * (ch * width) <= self.smp@.len(),
                self.smp@.len() <= usize::MAX,
                channels@.len() == c,
                forall|d: int| 0 <= d < c ==> (#[trigger] channels@[d])@.len() == frames,
                forall|d: int, f: int|
                    0 <= d < c && 0 <= f < frames ==> #[trigger] channels@[d]@[f]
                        == stored_sample::<T>(self.smp@, bps, f * ch + d),
            decreases ch - c,
        {
            let mut channel: Vec<T> = Vec::with_capacity(frames);
            let mut f: usize = 0;
            while f < frames
                invariant
                    f <= frames,
                    c < ch,
                    ch == self.fmt.ch,
                    bps == self.fmt.bps,
                    self.fmt.wf(),
                    width == bps / 8,
                    frames * (ch * width) <= self.smp@.len(),
                    self.smp@.len() <= usize::MAX,
                    channel@.len() == f,
                    forall|g: int|
                        0 <= g < f ==> #[trigger] channel@[g] == stored_sample::<T>(
                            self.smp@,
                            bps,
                            g * ch + c,
                        ),
                decreases frames - f,
            {
                assert(f * ch + c < frames * ch && 0 <= f * ch <= f * ch + c && (f * ch + c)
                    * width + width <= frames * (ch * width) && f * ch + c <= (f * ch + c) * width)
                    by (nonlinear_arith)
                    requires
                        0 <= f < frames,
                        0 <= c < ch,
                        width >= 1,
                ;
                let at = f * ch + c;
                let sample = if bps == 8 {
                    T::from_u8(self.smp[at])
                } else {
                    assert(at * width == 2 * at) by (nonlinear_arith)
                        requires
                            width == 2,
                    ;
                    let field = slice_subrange(self.smp.as_slice(), 2 * at, 2 * at + 2);
                    T::from_i16(byte_order::read_i16(field))
                };
                channel.push(sample);
                f = f + 1;
            }
            channels.push(channel);
            c = c + 1;
        }
        channels
    }
}


/// The number that two little-endian bytes stand for is the number that they
/// were made from, and so for four.
proof fn lemma_le_round_trip(n: int)
    requires
        0 <= n <= u32::MAX,
    ensures
        le_32(n).len() == 4,
        le_32(n)[0] as int + 0x100 * le_32(n)[1] as int + 0x1_0000 * le_32(n)[2] as int
            + 0x100_0000 * le_32(n)[3] as int == n,
        n <= u16::MAX ==> le_16(n).len() == 2 && le_16(n)[0] as int + 0x100 * le_16(n)[1] as int
            == n,
{
}

/// Reading undoes writing: the file that holds a buffer with a well-formed
/// form, read again, gives the form and the samples of the buffer.
pub proof fn lemma_wave_file_round_trip(fmt: PcmWaveFormat, smp: Seq<u8>)
    requires
        fmt.wf(),
        HEADER_SIZE - 8 + smp.len() <= u32::MAX,
    ensures
        wave_at(wave_file(fmt, smp)) == Ok::<(PcmWaveFormat, Seq<u8>), Error>((fmt, smp)),
{
    let n = smp.len() as int;
    let rate = fmt.sps * fmt.ch * fmt.bps / 8;
    let block = fmt.ch * fmt.bps / 8;
    assert(1 <= fmt.ch * fmt.bps <= 32 && fmt.sps * 8 <= fmt.sps * fmt.ch * fmt.bps)
        by (nonlinear_arith)
        requires
            1 <= fmt.ch <= 2,
            8 <= fmt.bps <= 16,
            fmt.sps >= 0,
    ;
    let c = format_chunk(fmt);
    let f = wave_file(fmt, smp);
    lemma_le_round_trip(HEADER_SIZE - 8 + n);
    lemma_le_round_trip(16);
    lemma_le_round_trip(1);
    lemma_le_round_trip(fmt.ch as int);
    lemma_le_round_trip(fmt.sps as int);
    lemma_le_round_trip(rate);
    lemma_le_round_trip(block);
    lemma_le_round_trip(fmt.bps as int);
    lemma_le_round_trip(n);
    assert(c.len() == 16);
    assert(f.len() == HEADER_SIZE + n);
    assert(f.subrange(0, 4) =~= RIFF_CODE@);
    assert(f.subrange(8, 16) =~= WAVE_FMT_CODE@);
    assert(f.subrange(16, 20) =~= le_32(16));
    assert(f.subrange(20, 36) =~= c);
    assert(f.subrange(36, 40) =~= DATA_CODE@);
    assert(f.subrange(40, 44) =~= le_32(n));
    assert(f.subrange(44, 44 + n) =~= smp);
    assert(fixed_32(f, 16) == Ok::<(u32, int), Error>((16u32, 20int))) by {
        assert(f[16] == f.subrange(16, 20)[0] && f[17] == f.subrange(16, 20)[1] && f[18]
            == f.subrange(16, 20)[2] && f[19] == f.subrange(16, 20)[3]);
    }
    assert(c.subrange(0, 2) =~= le_16(1));
    assert(c.subrange(2, 4) =~= le_16(fmt.ch as int));
    assert(c.subrange(4, 8) =~= le_32(fmt.sps as int));
    assert(c.subrange(8, 12) =~= le_32(rate));
    assert(c.subrange(12, 14) =~= le_16(block));
    assert(c.subrange(14, 16) =~= le_16(fmt.bps as int));
    assert forall|k: int| 0 <= k < 16 implies f[20 + k] == c[k] by {
        assert(f.subrange(20, 36)[k] == f[20 + k]);
    }
    assert(fixed_16(f, 20) == Ok::<(u16, int), Error>((1u16, 22int))) by {
        assert(c[0] == c.subrange(0, 2)[0] && c[1] == c.subrange(0, 2)[1]);
    }
    assert(fixed_16(f, 22) == Ok::<(u16, int), Error>((fmt.ch, 24int))) by {
        assert(c[2] == c.subrange(2, 4)[0] && c[3] == c.subrange(2, 4)[1]);
    }
    assert(fixed_32(f, 24) == Ok::<(u32, int), Error>((fmt.sps, 28int))) by {
        assert(c[4] == c.subrange(4, 8)[0] && c[5] == c.subrange(4, 8)[1] && c[6] == c.subrange(
            4,
            8,
        )[2] && c[7] == c.subrange(4, 8)[3]);
    }
    assert(fixed_32(f, 28) == Ok::<(u32, int), Error>((rate as u32, 32int))) by {
        assert(c[8] == c.subrange(8, 12)[0] && c[9] == c.subrange(8, 12)[1] && c[10]
            == c.subrange(8, 12)[2] && c[11] == c.subrange(8, 12)[3]);
    }
    assert(fixed_16(f, 32) == Ok::<(u16, int), Error>((block as u16, 34int))) by {
        assert(c[12] == c.subrange(12, 14)[0] && c[13] == c.subrange(12, 14)[1]);
    }
    assert(fixed_16(f, 34) == Ok::<(u16, int), Error>((fmt.bps, 36int))) by {
        assert(c[14] == c.subrange(14, 16)[0] && c[15] == c.subrange(14, 16)[1]);
    }
    assert(format_at(f, 20, 16) == Ok::<(PcmWaveFormat, int), Error>((fmt, 36int)));
    assert(data_at(f, 36) == Ok::<int, Error>(40int));
    assert(fixed_32(f, 40) == Ok::<(u32, int), Error>((n as u32, 44int))) by {
        assert(f[40] == f.subrange(40, 44)[0] && f[41] == f.subrange(40, 44)[1] && f[42]
            == f.subrange(40, 44)[2] && f[43] == f.subrange(40, 44)[3]);
    }
    assert(skipped(f, 44, n) == 44 + n);
}

} // verus!
