//! The instrument document and its parser.
//!
//! A document is a signature, a version, a duration counted in samples at
//! 44100 Hz, and up to four units. A unit has an envelope of up to three
//! points, a pan, and up to three oscillators: the one that is heard, one
//! that bends its frequency and one that scales its volume.
//!
//! The three numbers of an oscillator are stored in the file as
//! single-precision values in tenths. The document keeps them so, each by its
//! IEEE-754 bit pattern, cut to its range: dividing by ten is left to the
//! code that does the floating-point arithmetic.

pub mod frequency_table;
pub mod noise_builder;
pub mod noise_table;
pub mod oscillator;
pub mod pcm;
pub mod voice;

use crate::descriptor::byte_at;
use crate::descriptor::fixed_32;
use crate::descriptor::literal_at;
use crate::descriptor::signed_byte;
use crate::descriptor::signed_of;
use crate::descriptor::var_32;
use crate::descriptor::ByteReader;
use crate::error::Error;
use crate::helper::Point;
use crate::pulse::noise_builder::frame_count;
use crate::pulse::noise_builder::is_target;
use crate::pulse::noise_builder::NoiseBuilder;
use crate::pulse::pcm::PcmWaveFormat;
use crate::single::clamp_pattern;
use crate::single::clamped_pattern;
use crate::single::lemma_patterns_are_ordered;
use crate::single::lemma_value_of_whole;
use crate::single::pow2;
use crate::single::scaled_value;
use vstd::prelude::*;

verus! {

/// The bytes that a document starts with.
pub const CODE: [u8; 8] = [0x50, 0x54, 0x4e, 0x4f, 0x49, 0x53, 0x45, 0x2d];

/// The newest version that is read.
pub const VERSION: u32 = 20120418;

/// The most units in a document.
pub const MAX_UNIT_NUM: u8 = 4;

/// The longest duration, in samples at 44100 Hz.
pub const LIMIT_SMP_NUM: u32 = 480000;

/// The unit has an envelope.
pub const FLAG_ENVELOPE: u32 = 0x0004;

/// The unit has a pan.
pub const FLAG_PAN: u32 = 0x0008;

/// The unit has a main oscillator.
pub const FLAG_OSC_MAIN: u32 = 0x0010;

/// The unit has a frequency oscillator.
pub const FLAG_OSC_FREQ: u32 = 0x0020;

/// The unit has a volume oscillator.
pub const FLAG_OSC_VOLU: u32 = 0x0040;

/// The flag bits that no unit may set.
pub const FLAG_UNCOVERED: u32 = 0xffff_ff83;

/// The most envelope points in a unit.
pub const MAX_ENVELOPE_NUM: u32 = 3;

/// The latest envelope point, in milliseconds.
pub const LIMIT_ENVE_X: i32 = 10000;

/// The highest envelope level, in percent.
pub const LIMIT_ENVE_Y: i32 = 100;

/// The widest pan, to either side.
pub const LIMIT_PAN: i8 = 100;

/// The pattern of 441000.0: the highest frequency, in tenths of a hertz.
pub const LIMIT_FREQ: u32 = 0x48d7_5500;

/// The pattern of 2000.0: the highest volume, in tenths of a percent.
pub const LIMIT_VOLU: u32 = 0x44fa_0000;

/// The pattern of 1000.0: the highest phase offset, in tenths of a percent.
pub const LIMIT_OFFSET: u32 = 0x447a_0000;

/// `value` cut to the range from `low` to `high`.
pub open spec fn clamp(value: int, low: int, high: int) -> int {
    if value < low {
        low
    } else if value > high {
        high
    } else {
        value
    }
}

/// The shape of an oscillator's wave.
#[derive(Clone, Copy, Debug, PartialEq, Eq, Structural)]
pub enum NoiseWave {
    Silent,
    Sine,
    Saw,
    Rect,
    Random,
    Saw2,
    Rect2,
    Tri,
    Random2,
    Rect3,
    Rect4,
    Rect8,
    Rect16,
    Saw3,
    Saw4,
    Saw6,
    Saw8,
}

impl NoiseWave {
    /// The number that stands for the shape in a document.
    pub open spec fn index(self) -> int {
        match self {
            NoiseWave::Silent => 0,
            NoiseWave::Sine => 1,
            NoiseWave::Saw => 2,
            NoiseWave::Rect => 3,
            NoiseWave::Random => 4,
            NoiseWave::Saw2 => 5,
            NoiseWave::Rect2 => 6,
            NoiseWave::Tri => 7,
            NoiseWave::Random2 => 8,
            NoiseWave::Rect3 => 9,
            NoiseWave::Rect4 => 10,
            NoiseWave::Rect8 => 11,
            NoiseWave::Rect16 => 12,
            NoiseWave::Saw3 => 13,
            NoiseWave::Saw4 => 14,
            NoiseWave::Saw6 => 15,
            NoiseWave::Saw8 => 16,
        }
    }

    /// The shape that `index` stands for, if it stands for one.
    pub open spec fn of_index(index: int) -> Option<NoiseWave> {
        if exists|wave: NoiseWave| wave.index() == index {
            Some(choose|wave: NoiseWave| wave.index() == index)
        } else {
            None
        }
    }

    /// The shape that `n` stands for, if it stands for one.
    pub fn from_i32(n: i32) -> (r: Option<NoiseWave>)
        ensures
            r == Self::of_index(n as int),
            r is Some <==> 0 <= n <= 16,
            r is Some ==> r->Some_0.index() == n,
    {
        let r = match n {
            0 => Some(NoiseWave::Silent),
            1 => Some(NoiseWave::Sine),
            2 => Some(NoiseWave::Saw),
            3 => Some(NoiseWave::Rect),
            4 => Some(NoiseWave::Random),
            5 => Some(NoiseWave::Saw2),
            6 => Some(NoiseWave::Rect2),
            7 => Some(NoiseWave::Tri),
            8 => Some(NoiseWave::Random2),
            9 => Some(NoiseWave::Rect3),
            10 => Some(NoiseWave::Rect4),
            11 => Some(NoiseWave::Rect8),
            12 => Some(NoiseWave::Rect16),
            13 => Some(NoiseWave::Saw3),
            14 => Some(NoiseWave::Saw4),
            15 => Some(NoiseWave::Saw6),
            16 => Some(NoiseWave::Saw8),
            _ => None,
        };
        proof {
            Self::lemma_index_names_one_shape();
            match r {
                Some(wave) => {
                    assert(wave.index() == n);
                },
                None => {},
            }
        }
        r
    }

    /// Every shape has an index from 0 to 16, and no two shapes share one.
    pub proof fn lemma_index_names_one_shape()
        ensures
            forall|wave: NoiseWave| 0 <= #[trigger] wave.index() <= 16,
            forall|a: NoiseWave, b: NoiseWave| #[trigger] a.index() == #[trigger] b.index()
                ==> a == b,
            forall|wave: NoiseWave| Self::of_index(#[trigger] wave.index()) == Some(wave),
    {
    }
}


/// One wave generator of a unit.
#[derive(Clone, Copy, Debug, PartialEq, Eq, Structural)]
pub struct NoiseOscillator {
    /// The shape of the wave.
    pub wave: NoiseWave,
    /// Whether the wave is turned upside down.
    pub rev: bool,
    /// The frequency in tenths of a hertz, as a single-precision pattern.
    pub freq: u32,
    /// The volume in tenths of a percent, as a single-precision pattern.
    pub volu: u32,
    /// The phase offset in tenths of a percent, as a single-precision pattern.
    pub offset: u32,
}

/// The oscillator that starts at `at`, with the position behind it.
pub open spec fn oscillator_at(s: Seq<u8>, at: int) -> Result<(NoiseOscillator, int), Error> {
    match var_32(s, at) {
        Err(e) => Err(e),
        Ok((index, at_rev)) => match NoiseWave::of_index(signed_of(index) as int) {
            None => Err(Error::UnknownWaveform),
            Some(wave) => match var_32(s, at_rev) {
                Err(e) => Err(e),
                Ok((rev, at_freq)) => match var_32(s, at_freq) {
                    Err(e) => Err(e),
                    Ok((freq, at_volu)) => match var_32(s, at_volu) {
                        Err(e) => Err(e),
                        Ok((volu, at_offset)) => match var_32(s, at_offset) {
                            Err(e) => Err(e),
                            Ok((offset, next)) => Ok(
                                (
                                    NoiseOscillator {
                                        wave,
                                        rev: rev != 0,
                                        freq: clamp_pattern(freq, LIMIT_FREQ),
                                        volu: clamp_pattern(volu, LIMIT_VOLU),
                                        offset: clamp_pattern(offset, LIMIT_OFFSET),
                                    },
                                    next,
                                ),
                            ),
                        },
                    },
                },
            },
        },
    }
}

/// The oscillator that starts at `at` where the unit has one, with the
/// position behind it.
pub open spec fn optional_oscillator_at(s: Seq<u8>, at: int, present: bool) -> Result<
    (Option<NoiseOscillator>, int),
    Error,
> {
    if present {
        match oscillator_at(s, at) {
            Err(e) => Err(e),
            Ok((oscillator, next)) => Ok((Some(oscillator), next)),
        }
    } else {
        Ok((None, at))
    }
}

impl NoiseOscillator {
    /// Each of the three numbers is within its range.
    pub open spec fn wf(self) -> bool {
        self.freq <= LIMIT_FREQ && self.volu <= LIMIT_VOLU && self.offset <= LIMIT_OFFSET
    }

    /// Tells whether each of the three numbers is within its range.
    pub fn is_valid(&self) -> (r: bool)
        ensures
            r == self.wf(),
    {
        self.freq <= LIMIT_FREQ && self.volu <= LIMIT_VOLU && self.offset <= LIMIT_OFFSET
    }

    fn read(bytes: &mut ByteReader) -> (r: Result<Self, Error>)
        ensures
            final(bytes).source() == old(bytes).source(),
            match oscillator_at(old(bytes).source(), old(bytes).position()) {
                Ok((oscillator, next)) => r == Ok::<Self, Error>(oscillator)
                    && final(bytes).position() == next && oscillator.wf(),
                Err(e) => r == Err::<Self, Error>(e),
            },
    {
        let index = bytes.read_var_i32()?;
        let wave = match NoiseWave::from_i32(index) {
            Some(wave) => wave,
            None => {
                return Err(Error::UnknownWaveform);
            },
        };
        let rev = bytes.read_var_u32()? != 0;
        let freq = clamped_pattern(bytes.read_var_f32()?, LIMIT_FREQ);
        let volu = clamped_pattern(bytes.read_var_f32()?, LIMIT_VOLU);
        let offset = clamped_pattern(bytes.read_var_f32()?, LIMIT_OFFSET);
        Ok(NoiseOscillator { wave, rev, freq, volu, offset })
    }

    /// Reads one oscillator.
    ///
    /// On an error the reader stays where it was.
    pub fn new(bytes: &mut ByteReader) -> (r: Result<Self, Error>)
        ensures
            final(bytes).source() == old(bytes).source(),
            match oscillator_at(old(bytes).source(), old(bytes).position()) {
                Ok((oscillator, next)) => r == Ok::<Self, Error>(oscillator)
                    && final(bytes).position() == next && oscillator.wf(),
                Err(e) => r == Err::<Self, Error>(e)
                    && final(bytes).position() == old(bytes).position(),
            },
    {
        let start = bytes.offset();
        let r = Self::read(bytes);
        if r.is_err() {
            bytes.seek(start);
        }
        r
    }
}


/// The limits of the three numbers of an oscillator are the patterns of
/// 441000, 2000 and 1000, and the numbers of a well-formed oscillator lie
/// between zero and these: a frequency of at most 44100 Hz, a volume of at
/// most 200 percent, and a phase offset of at most 100 percent.
pub proof fn lemma_oscillator_ranges(oscillator: NoiseOscillator)
    requires
        oscillator.wf(),
    ensures
        scaled_value(LIMIT_FREQ) == 441000 * pow2(149),
        scaled_value(LIMIT_VOLU) == 2000 * pow2(149),
        scaled_value(LIMIT_OFFSET) == 1000 * pow2(149),
        scaled_value(oscillator.freq) <= 441000 * pow2(149),
        scaled_value(oscillator.volu) <= 2000 * pow2(149),
        scaled_value(oscillator.offset) <= 1000 * pow2(149),
{
    lemma_value_of_whole(145, 14112000);
    lemma_value_of_whole(137, 16384000);
    lemma_value_of_whole(136, 16384000);
    assert(pow2(149) == 32 * pow2(144)) by {
        reveal_with_fuel(pow2, 6);
    }
    assert(pow2(149) == 8192 * pow2(136) && pow2(149) == 16384 * pow2(135)) by {
        reveal_with_fuel(pow2, 15);
    }
    assert(14112000 * pow2(144) == 441000 * (32 * pow2(144))) by (nonlinear_arith);
    assert(16384000 * pow2(136) == 2000 * (8192 * pow2(136))) by (nonlinear_arith);
    assert(16384000 * pow2(135) == 1000 * (16384 * pow2(135))) by (nonlinear_arith);
    lemma_patterns_are_ordered(oscillator.freq, LIMIT_FREQ);
    lemma_patterns_are_ordered(oscillator.volu, LIMIT_VOLU);
    lemma_patterns_are_ordered(oscillator.offset, LIMIT_OFFSET);
}

/// One voice of an instrument.
#[derive(Clone, Debug, PartialEq, Eq)]
pub struct NoiseUnit {
    /// Whether the unit is heard.
    pub enable: bool,
    /// The breakpoints of the volume envelope: `x` is a time in
    /// milliseconds, `y` a level in percent.
    pub enves: Vec<Point>,
    /// The pan, from -100 to 100; 0 is the centre.
    pub pan: i8,
    /// The oscillator that is heard.
    pub main: Option<NoiseOscillator>,
    /// The oscillator that bends the frequency of the main one.
    pub freq: Option<NoiseOscillator>,
    /// The oscillator that scales the volume of the main one.
    pub volu: Option<NoiseOscillator>,
}

/// What a unit holds.
pub struct NoiseUnitView {
    pub enable: bool,
    pub enves: Seq<Point>,
    pub pan: i8,
    pub main: Option<NoiseOscillator>,
    pub freq: Option<NoiseOscillator>,
    pub volu: Option<NoiseOscillator>,
}

impl View for NoiseUnit {
    type V = NoiseUnitView;

    open spec fn view(&self) -> NoiseUnitView {
        NoiseUnitView {
            enable: self.enable,
            enves: self.enves@,
            pan: self.pan,
            main: self.main,
            freq: self.freq,
            volu: self.volu,
        }
    }
}

impl NoiseUnitView {
    /// The unit keeps the limits of the format: at most three envelope
    /// points, each within its range, a pan within its range, and
    /// oscillators whose numbers are within theirs.
    pub open spec fn wf(self) -> bool {
        &&& self.enves.len() <= MAX_ENVELOPE_NUM
        &&& forall|k: int|
            0 <= k < self.enves.len() ==> 0 <= (#[trigger] self.enves[k]).x <= LIMIT_ENVE_X && 0
                <= self.enves[k].y <= LIMIT_ENVE_Y
        &&& -LIMIT_PAN <= self.pan <= LIMIT_PAN
        &&& (self.main is Some ==> self.main->Some_0.wf())
        &&& (self.freq is Some ==> self.freq->Some_0.wf())
        &&& (self.volu is Some ==> self.volu->Some_0.wf())
    }
}

/// The envelope point that starts at `at`, with the position behind it.
pub open spec fn point_at(s: Seq<u8>, at: int) -> Result<(Point, int), Error> {
    match var_32(s, at) {
        Err(e) => Err(e),
        Ok((x, at_y)) => match var_32(s, at_y) {
            Err(e) => Err(e),
            Ok((y, next)) => Ok(
                (
                    Point {
                        x: clamp(signed_of(x) as int, 0, LIMIT_ENVE_X as int) as i32,
                        y: clamp(signed_of(y) as int, 0, LIMIT_ENVE_Y as int) as i32,
                    },
                    next,
                ),
            ),
        },
    }
}

/// The `count` envelope points that start at `at`, with the position behind
/// them.
pub open spec fn points_at(s: Seq<u8>, at: int, count: nat) -> Result<(Seq<Point>, int), Error>
    decreases count,
{
    if count == 0 {
        Ok((Seq::empty(), at))
    } else {
        match points_at(s, at, (count - 1) as nat) {
            Err(e) => Err(e),
            Ok((points, at_last)) => match point_at(s, at_last) {
                Err(e) => Err(e),
                Ok((point, next)) => Ok((points.push(point), next)),
            },
        }
    }
}

/// The envelope that starts at `at` where `flags` announce one, with the
/// position behind it.
pub open spec fn envelope_at(s: Seq<u8>, at: int, flags: u32) -> Result<(Seq<Point>, int), Error> {
    if flags & FLAG_ENVELOPE != 0 {
        match var_32(s, at) {
            Err(e) => Err(e),
            Ok((count, at_points)) => if count > MAX_ENVELOPE_NUM {
                Err(Error::TooManyEnvelopePoints)
            } else {
                points_at(s, at_points, count as nat)
            },
        }
    } else {
        Ok((Seq::empty(), at))
    }
}

/// The pan that stands at `at` where `flags` announce one, with the position
/// behind it.
pub open spec fn pan_at(s: Seq<u8>, at: int, flags: u32) -> Result<(i8, int), Error> {
    if flags & FLAG_PAN != 0 {
        match byte_at(s, at) {
            Err(e) => Err(e),
            Ok((pan, next)) => Ok(
                (clamp(signed_byte(pan) as int, -LIMIT_PAN as int, LIMIT_PAN as int) as i8, next),
            ),
        }
    } else {
        Ok((0i8, at))
    }
}

/// The unit that starts at `at`, with the position behind it.
#[verifier::opaque]
pub open spec fn unit_at(s: Seq<u8>, at: int) -> Result<(NoiseUnitView, int), Error> {
    match var_32(s, at) {
        Err(e) => Err(e),
        Ok((flags, at_envelope)) => if flags & FLAG_UNCOVERED != 0 {
            Err(Error::UnknownFeatureFlag)
        } else {
            match envelope_at(s, at_envelope, flags) {
                Err(e) => Err(e),
                Ok((enves, at_pan)) => match pan_at(s, at_pan, flags) {
                    Err(e) => Err(e),
                    Ok((pan, at_main)) => match optional_oscillator_at(
                        s,
                        at_main,
                        flags & FLAG_OSC_MAIN != 0,
                    ) {
                        Err(e) => Err(e),
                        Ok((main, at_freq)) => match optional_oscillator_at(
                            s,
                            at_freq,
                            flags & FLAG_OSC_FREQ != 0,
                        ) {
                            Err(e) => Err(e),
                            Ok((freq, at_volu)) => match optional_oscillator_at(
                                s,
                                at_volu,
                                flags & FLAG_OSC_VOLU != 0,
                            ) {
                                Err(e) => Err(e),
                                Ok((volu, next)) => Ok(
                                    (
                                        NoiseUnitView {
                                            enable: true,
                                            enves,
                                            pan,
                                            main,
                                            freq,
                                            volu,
                                        },
                                        next,
                                    ),
                                ),
                            },
                        },
                    },
                },
            }
        },
    }
}

/// Once reading the points has failed, asking for more points fails alike.
proof fn lemma_points_error_stays(s: Seq<u8>, at: int, fewer: nat, count: nat)
    requires
        fewer <= count,
        points_at(s, at, fewer) is Err,
    ensures
        points_at(s, at, count) == points_at(s, at, fewer),
    decreases count - fewer,
{
    if fewer < count {
        lemma_points_error_stays(s, at, fewer, (count - 1) as nat);
    }
}

fn clamped(value: i32, low: i32, high: i32) -> (r: i32)
    requires
        low <= high,
    ensures
        r == clamp(value as int, low as int, high as int),
{
    if value < low {
        low
    } else if value > high {
        high
    } else {
        value
    }
}

fn is_valid_or_absent(oscillator: &Option<NoiseOscillator>) -> (r: bool)
    ensures
        r == (*oscillator is Some ==> oscillator->Some_0.wf()),
{
    match oscillator {
        Some(oscillator) => oscillator.is_valid(),
        None => true,
    }
}

impl NoiseUnit {
    /// Tells whether the unit keeps the limits of the format.
    pub fn is_valid(&self) -> (r: bool)
        ensures
            r == self@.wf(),
    {
        if self.enves.len() > MAX_ENVELOPE_NUM as usize {
            return false;
        }
        let mut k: usize = 0;
        while k < self.enves.len()
            invariant
                k <= self.enves@.len(),
                forall|j: int|
                    0 <= j < k ==> 0 <= (#[trigger] self.enves@[j]).x <= LIMIT_ENVE_X && 0
                        <= self.enves@[j].y <= LIMIT_ENVE_Y,
            decreases self.enves@.len() - k,
        {
            let point = self.enves[k];
            if point.x < 0 || point.x > LIMIT_ENVE_X || point.y < 0 || point.y > LIMIT_ENVE_Y {
                assert(!(0 <= self@.enves[k as int].x <= LIMIT_ENVE_X
                    && 0 <= self@.enves[k as int].y
                    <= LIMIT_ENVE_Y));
                return false;
            }
            k = k + 1;
        }
        -LIMIT_PAN <= self.pan && self.pan <= LIMIT_PAN && is_valid_or_absent(&self.main)
            && is_valid_or_absent(&self.freq) && is_valid_or_absent(&self.volu)
    }

    fn read_point(bytes: &mut ByteReader) -> (r: Result<Point, Error>)
        ensures
            final(bytes).source() == old(bytes).source(),
            match point_at(old(bytes).source(), old(bytes).position()) {
                Ok((point, next)) => r == Ok::<Point, Error>(point) && final(bytes).position()
                    == next && 0 <= point.x <= LIMIT_ENVE_X && 0 <= point.y <= LIMIT_ENVE_Y,
                Err(e) => r == Err::<Point, Error>(e),
            },
    {
        let x = clamped(bytes.read_var_i32()?, 0, LIMIT_ENVE_X);
        let y = clamped(bytes.read_var_i32()?, 0, LIMIT_ENVE_Y);
        Ok(Point { x, y })
    }

    fn read_envelope(bytes: &mut ByteReader, flags: u32) -> (r: Result<Vec<Point>, Error>)
        ensures
            final(bytes).source() == old(bytes).source(),
            match envelope_at(old(bytes).source(), old(bytes).position(), flags) {
                Ok((enves, next)) => r is Ok && r->Ok_0@ == enves && final(bytes).position()
                    == next && enves.len() <= MAX_ENVELOPE_NUM && forall|k: int|
                    0 <= k < enves.len() ==> 0 <= (#[trigger] enves[k]).x <= LIMIT_ENVE_X && 0
                        <= enves[k].y <= LIMIT_ENVE_Y,
                Err(e) => r == Err::<Vec<Point>, Error>(e),
            },
    {
        let mut enves: Vec<Point> = Vec::new();
        if flags & FLAG_ENVELOPE == 0 {
            return Ok(enves);
        }
        let enve_num = bytes.read_var_u32()?;
        if enve_num > MAX_ENVELOPE_NUM {
            return Err(Error::TooManyEnvelopePoints);
        }
        let ghost s = bytes.source();
        let ghost first = bytes.position();
        let mut i: u32 = 0;
        while i < enve_num
            invariant
                i <= enve_num,
                enve_num <= MAX_ENVELOPE_NUM,
                bytes.source() == s,
                s == old(bytes).source(),
                flags & FLAG_ENVELOPE != 0,
                var_32(s, old(bytes).position()) == Ok::<(u32, int), Error>((enve_num, first)),
                points_at(s, first, i as nat) == Ok::<(Seq<Point>, int), Error>(
                    (enves@, bytes.position()),
                ),
                forall|k: int|
                    0 <= k < enves@.len() ==> 0 <= (#[trigger] enves@[k]).x <= LIMIT_ENVE_X && 0
                        <= enves@[k].y <= LIMIT_ENVE_Y,
            decreases enve_num - i,
        {
            match Self::read_point(bytes) {
                Ok(point) => {
                    enves.push(point);
                },
                Err(e) => {
                    proof {
                        lemma_points_error_stays(s, first, (i + 1) as nat, enve_num as nat);
                    }
                    return Err(e);
                },
            }
            i = i + 1;
        }
        proof {
            lemma_points_count(s, first, enve_num as nat);
        }
        Ok(enves)
    }

    fn read_pan(bytes: &mut ByteReader, flags: u32) -> (r: Result<i8, Error>)
        ensures
            final(bytes).source() == old(bytes).source(),
            match pan_at(old(bytes).source(), old(bytes).position(), flags) {
                Ok((pan, next)) => r == Ok::<i8, Error>(pan) && final(bytes).position() == next
                    && -LIMIT_PAN <= pan <= LIMIT_PAN,
                Err(e) => r == Err::<i8, Error>(e),
            },
    {
        if flags & FLAG_PAN == 0 {
            return Ok(0);
        }
        let pan = bytes.read_i8()?;
        if pan < -LIMIT_PAN {
            Ok(-LIMIT_PAN)
        } else if pan > LIMIT_PAN {
            Ok(LIMIT_PAN)
        } else {
            Ok(pan)
        }
    }

    fn read_oscillator(bytes: &mut ByteReader, present: bool) -> (r: Result<
        Option<NoiseOscillator>,
        Error,
    >)
        ensures
            final(bytes).source() == old(bytes).source(),
            match optional_oscillator_at(old(bytes).source(), old(bytes).position(), present) {
                Ok((oscillator, next)) => r == Ok::<Option<NoiseOscillator>, Error>(oscillator)
                    && final(bytes).position() == next && (oscillator is Some
                    ==> oscillator->Some_0.wf()),
                Err(e) => r == Err::<Option<NoiseOscillator>, Error>(e),
            },
    {
        if present {
            Ok(Some(NoiseOscillator::new(bytes)?))
        } else {
            Ok(None)
        }
    }

    fn read(bytes: &mut ByteReader) -> (r: Result<Self, Error>)
        ensures
            final(bytes).source() == old(bytes).source(),
            match unit_at(old(bytes).source(), old(bytes).position()) {
                Ok((unit, next)) => r is Ok && r->Ok_0@ == unit && final(bytes).position() == next
                    && unit.wf(),
                Err(e) => r == Err::<Self, Error>(e),
            },
    {
        reveal(unit_at);
        let enable = true;
        let flags = bytes.read_var_u32()?;
        if flags & FLAG_UNCOVERED != 0 {
            return Err(Error::UnknownFeatureFlag);
        }
        let enves = Self::read_envelope(bytes, flags)?;
        let pan = Self::read_pan(bytes, flags)?;
        let main = Self::read_oscillator(bytes, flags & FLAG_OSC_MAIN != 0)?;
        let freq = Self::read_oscillator(bytes, flags & FLAG_OSC_FREQ != 0)?;
        let volu = Self::read_oscillator(bytes, flags & FLAG_OSC_VOLU != 0)?;
        Ok(NoiseUnit { enable, enves, pan, main, freq, volu })
    }

    /// Reads one unit.
    ///
    /// On an error the reader stays where it was.
    pub fn new(bytes: &mut ByteReader) -> (r: Result<Self, Error>)
        ensures
            final(bytes).source() == old(bytes).source(),
            match unit_at(old(bytes).source(), old(bytes).position()) {
                Ok((unit, next)) => r is Ok && r->Ok_0@ == unit && final(bytes).position() == next
                    && unit.wf(),
                Err(e) => r == Err::<Self, Error>(e)
                    && final(bytes).position() == old(bytes).position(),
            },
    {
        let start = bytes.offset();
        let r = Self::read(bytes);
        if r.is_err() {
            bytes.seek(start);
        }
        r
    }
}

/// Reading `count` points gives `count` points.
proof fn lemma_points_count(s: Seq<u8>, at: int, count: nat)
    ensures
        points_at(s, at, count) is Ok ==> points_at(s, at, count)->Ok_0.0.len() == count,
    decreases count,
{
    if count > 0 {
        lemma_points_count(s, at, (count - 1) as nat);
    }
}


/// An instrument: its duration and its units, in the order of the file.
#[derive(Clone, Debug, PartialEq, Eq)]
pub struct Noise {
    /// The units, in the order in which they are mixed.
    pub units: Vec<NoiseUnit>,
    /// The duration in samples at 44100 Hz.
    pub smp_num_44k: u32,
}

/// What an instrument holds.
pub struct NoiseView {
    pub units: Seq<NoiseUnitView>,
    pub smp_num_44k: u32,
}

/// What each of `units` holds.
pub open spec fn unit_views(units: Seq<NoiseUnit>) -> Seq<NoiseUnitView> {
    Seq::new(units.len(), |k: int| units[k]@)
}

impl View for Noise {
    type V = NoiseView;

    open spec fn view(&self) -> NoiseView {
        NoiseView { units: unit_views(self.units@), smp_num_44k: self.smp_num_44k }
    }
}

impl NoiseView {
    /// The instrument keeps the limits of the format: at most four units,
    /// each within its limits, and a duration of at most ten seconds.
    pub open spec fn wf(self) -> bool {
        &&& self.units.len() <= MAX_UNIT_NUM
        &&& forall|k: int| 0 <= k < self.units.len() ==> (#[trigger] self.units[k]).wf()
        &&& self.smp_num_44k <= LIMIT_SMP_NUM
    }
}

/// The `count` units that start at `at`, with the position behind them.
pub open spec fn units_at(s: Seq<u8>, at: int, count: nat) -> Result<
    (Seq<NoiseUnitView>, int),
    Error,
>
    decreases count,
{
    if count == 0 {
        Ok((Seq::empty(), at))
    } else {
        match units_at(s, at, (count - 1) as nat) {
            Err(e) => Err(e),
            Ok((units, at_last)) => match unit_at(s, at_last) {
                Err(e) => Err(e),
                Ok((unit, next)) => Ok((units.push(unit), next)),
            },
        }
    }
}

/// What stands before the units: the duration and the number of units, with
/// the position of the first unit.
pub open spec fn header_at(s: Seq<u8>) -> Result<(u32, u8, int), Error> {
    match literal_at(s, 0, CODE@) {
        Err(e) => Err(e),
        Ok(false) => Err(Error::BadSignature),
        Ok(true) => match fixed_32(s, 8) {
            Err(e) => Err(e),
            Ok((version, at_duration)) => if version > VERSION {
                Err(Error::UnsupportedVersion)
            } else {
                match var_32(s, at_duration) {
                    Err(e) => Err(e),
                    Ok((duration, at_count)) => match byte_at(s, at_count) {
                        Err(e) => Err(e),
                        Ok((count, at_units)) => if count > MAX_UNIT_NUM {
                            Err(Error::TooManyUnits)
                        } else {
                            Ok(
                                (
                                    if duration > LIMIT_SMP_NUM {
                                        LIMIT_SMP_NUM
                                    } else {
                                        duration
                                    },
                                    count,
                                    at_units,
                                ),
                            )
                        },
                    },
                }
            },
        },
    }
}

/// The instrument that the buffer `s` holds.
///
/// What follows the last unit is not looked at.
pub open spec fn noise_at(s: Seq<u8>) -> Result<NoiseView, Error> {
    match header_at(s) {
        Err(e) => Err(e),
        Ok((smp_num_44k, count, at_units)) => match units_at(s, at_units, count as nat) {
            Err(e) => Err(e),
            Ok((units, _)) => Ok(NoiseView { units, smp_num_44k }),
        },
    }
}

/// Once reading the units has failed, asking for more units fails alike.
proof fn lemma_units_error_stays(s: Seq<u8>, at: int, fewer: nat, count: nat)
    requires
        fewer <= count,
        units_at(s, at, fewer) is Err,
    ensures
        units_at(s, at, count) == units_at(s, at, fewer),
    decreases count - fewer,
{
    if fewer < count {
        lemma_units_error_stays(s, at, fewer, (count - 1) as nat);
    }
}

impl Noise {
    /// Tells whether the instrument keeps the limits of the format.
    pub fn is_valid(&self) -> (r: bool)
        ensures
            r == self@.wf(),
    {
        if self.units.len() > MAX_UNIT_NUM as usize || self.smp_num_44k > LIMIT_SMP_NUM {
            return false;
        }
        let mut k: usize = 0;
        while k < self.units.len()
            invariant
                k <= self.units@.len(),
                forall|j: int| 0 <= j < k ==> (#[trigger] self@.units[j]).wf(),
            decreases self.units@.len() - k,
        {
            if !self.units[k].is_valid() {
                assert(!self@.units[k as int].wf());
                return false;
            }
            k = k + 1;
        }
        true
    }

    fn read_header(reader: &mut ByteReader) -> (r: Result<(u32, u8), Error>)
        requires
            old(reader).position() == 0,
        ensures
            final(reader).source() == old(reader).source(),
            match header_at(old(reader).source()) {
                Ok((smp_num_44k, count, at_units)) => r == Ok::<(u32, u8), Error>(
                    (smp_num_44k, count),
                ) && final(reader).position() == at_units && smp_num_44k <= LIMIT_SMP_NUM && count
                    <= MAX_UNIT_NUM,
                Err(e) => r == Err::<(u32, u8), Error>(e),
            },
    {
        if !reader.read_exact(CODE.as_slice())? {
            return Err(Error::BadSignature);
        }
        let version = reader.read_u32()?;
        if version > VERSION {
            return Err(Error::UnsupportedVersion);
        }
        let duration = reader.read_var_u32()?;
        let smp_num_44k = if duration > LIMIT_SMP_NUM {
            LIMIT_SMP_NUM
        } else {
            duration
        };
        let unit_num = reader.read_u8()?;
        if unit_num > MAX_UNIT_NUM {
            return Err(Error::TooManyUnits);
        }
        Ok((smp_num_44k, unit_num))
    }

    fn read_units(reader: &mut ByteReader, unit_num: u8) -> (r: Result<Vec<NoiseUnit>, Error>)
        ensures
            final(reader).source() == old(reader).source(),
            match units_at(old(reader).source(), old(reader).position(), unit_num as nat) {
                Ok((units, next)) => r is Ok && unit_views(r->Ok_0@) == units
                    && final(reader).position() == next && r->Ok_0@.len() == unit_num
                        && forall|k: int|
                    0 <= k < units.len() ==> (#[trigger] units[k]).wf(),
                Err(e) => r == Err::<Vec<NoiseUnit>, Error>(e),
            },
    {
        let ghost s = reader.source();
        let ghost first = reader.position();
        let mut units: Vec<NoiseUnit> = Vec::new();
        let mut i: u8 = 0;
        assert(unit_views(units@) =~= Seq::empty());
        while i < unit_num
            invariant
                i <= unit_num,
                reader.source() == s,
                s == old(reader).source(),
                first == old(reader).position(),
                units@.len() == i,
                units_at(s, first, i as nat) == Ok::<(Seq<NoiseUnitView>, int), Error>(
                    (unit_views(units@), reader.position()),
                ),
                forall|k: int| 0 <= k < units@.len() ==> (#[trigger] unit_views(units@)[k]).wf(),
            decreases unit_num - i,
        {
            match NoiseUnit::new(reader) {
                Ok(unit) => {
                    proof {
                        assert(unit_views(units@.push(unit)) =~= unit_views(units@).push(unit@));
                    }
                    units.push(unit);
                },
                Err(e) => {
                    proof {
                        lemma_units_error_stays(s, first, (i + 1) as nat, unit_num as nat);
                    }
                    return Err(e);
                },
            }
            i = i + 1;
        }
        Ok(units)
    }

    /// Reads an instrument from a whole buffer.
    ///
    /// The result is the instrument that the buffer holds, or the first
    /// fault met on the way through it.
    pub fn new(bytes: &[u8]) -> (r: Result<Self, Error>)
        ensures
            match noise_at(bytes@) {
                Ok(noise) => r is Ok && r->Ok_0@ == noise && noise.wf(),
                Err(e) => r == Err::<Self, Error>(e),
            },
    {
        let mut reader = ByteReader::new(bytes);
        let (smp_num_44k, unit_num) = Self::read_header(&mut reader)?;
        let units = Self::read_units(&mut reader, unit_num)?;
        Ok(Noise { units, smp_num_44k })
    }

    /// Starts the assembly of a rendering of the instrument with `ch`
    /// channels, at `sps` samples per second and `bps` bits per sample.
    ///
    /// Fails where the form is none that can be rendered.
    pub fn build(&self, ch: u16, sps: u32, bps: u16) -> (r: Result<NoiseBuilder, Error>)
        ensures
            !is_target(ch, sps, bps) ==> r == Err::<NoiseBuilder, Error>(Error::UnsupportedTarget),
            is_target(ch, sps, bps) ==> r is Ok && r->Ok_0.wf() && r->Ok_0.format() == (
            PcmWaveFormat { ch, sps, bps }) && r->Ok_0.frames() == frame_count(
                self.smp_num_44k,
                sps,
            ) && r->Ok_0.bytes() == Seq::<u8>::empty(),
    {
        NoiseBuilder::build(self, ch, sps, bps)
    }
}

} // verus!
