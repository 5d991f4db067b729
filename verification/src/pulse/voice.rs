//! The voice document and its parser.
//!
//! A voice is a signature, a version, a basic key and any number of units. A
//! unit has a key, a volume, a pan, a tuning and flags, and may have a wave
//! and an envelope. A wave is a line through breakpoints or a set of
//! harmonics; waves of noise, of samples or of compressed samples are not
//! read. An envelope is a rate and its points.

use crate::descriptor::byte_at;
use crate::descriptor::fixed_32;
use crate::descriptor::literal_at;
use crate::descriptor::signed_byte;
use crate::descriptor::signed_of;
use crate::descriptor::skipped;
use crate::descriptor::var_32;
use crate::descriptor::ByteReader;
use crate::error::Error;
use crate::helper::Point;
use vstd::prelude::*;

verus! {

/// The bytes that a voice starts with.
pub const CODE: [u8; 8] = [0x50, 0x54, 0x56, 0x4f, 0x49, 0x43, 0x45, 0x2d];

/// The newest version that is read.
pub const VERSION: u32 = 20060111;

/// The wave of the unit is played in a loop.
pub const FLAG_WAVELOOP: u32 = 0x0001;

/// The unit is smoothed.
pub const FLAG_SMOOTH: u32 = 0x0002;

/// The unit is fitted to the beat.
pub const FLAG_BEATFIT: u32 = 0x0004;

/// The flag bits that no unit may set.
pub const FLAG_UNCOVERED: u32 = 0xffff_fff8;

/// The unit has a wave.
pub const DATA_FLAG_WAVE: u32 = 0x0001;

/// The unit has an envelope.
pub const DATA_FLAG_ENVELOPE: u32 = 0x0002;

/// The data flag bits that no unit may set.
pub const DATA_FLAG_UNCOVERED: u32 = 0xffff_fffc;

/// The kinds of wave that a voice can name.
#[derive(Clone, Copy, Debug, PartialEq, Eq, Structural)]
pub enum VoiceWaveType {
    Coodinate,
    Overtone,
    Noise,
    Sampling,
    OggVorbis,
}

impl VoiceWaveType {
    /// The kind that `index` stands for, if it stands for one.
    pub open spec fn of_index(index: int) -> Option<VoiceWaveType> {
        if index == 0 {
            Some(VoiceWaveType::Coodinate)
        } else if index == 1 {
            Some(VoiceWaveType::Overtone)
        } else if index == 2 {
            Some(VoiceWaveType::Noise)
        } else if index == 3 {
            Some(VoiceWaveType::Sampling)
        } else if index == 4 {
            Some(VoiceWaveType::OggVorbis)
        } else {
            None
        }
    }

    /// The kind that `n` stands for, if it stands for one.
    pub fn from_i32(n: i32) -> (r: Option<VoiceWaveType>)
        ensures
            r == Self::of_index(n as int),
    {
        match n {
            0 => Some(VoiceWaveType::Coodinate),
            1 => Some(VoiceWaveType::Overtone),
            2 => Some(VoiceWaveType::Noise),
            3 => Some(VoiceWaveType::Sampling),
            4 => Some(VoiceWaveType::OggVorbis),
            _ => None,
        }
    }
}

/// The wave of a unit.
#[derive(Clone, Debug, PartialEq, Eq)]
pub enum VoiceWave {
    /// A line through breakpoints over a domain of `reso` positions.
    Coodinate { points: Vec<Point>, reso: i32 },
    /// A set of harmonics: `x` is the number of the harmonic, `y` its weight.
    Overtone { points: Vec<Point> },
}

/// What a wave holds.
pub enum VoiceWaveView {
    Coodinate { points: Seq<Point>, reso: i32 },
    Overtone { points: Seq<Point> },
}

impl View for VoiceWave {
    type V = VoiceWaveView;

    open spec fn view(&self) -> VoiceWaveView {
        match self {
            VoiceWave::Coodinate { points, reso } => VoiceWaveView::Coodinate {
                points: points@,
                reso: *reso,
            },
            VoiceWave::Overtone { points } => VoiceWaveView::Overtone { points: points@ },
        }
    }
}

/// The envelope of a unit.
#[derive(Clone, Debug, PartialEq, Eq)]
pub struct VoiceEnvelope {
    /// The points: the head points and the one tail point.
    pub points: Vec<Point>,
    /// The rate of the points, in points per second.
    pub fps: i32,
}

/// What an envelope holds.
pub struct VoiceEnvelopeView {
    pub points: Seq<Point>,
    pub fps: i32,
}

impl View for VoiceEnvelope {
    type V = VoiceEnvelopeView;

    open spec fn view(&self) -> VoiceEnvelopeView {
        VoiceEnvelopeView { points: self.points@, fps: self.fps }
    }
}

/// One unit of a voice.
#[derive(Clone, Debug, PartialEq, Eq)]
pub struct VoiceUnit {
    /// The key at which the wave sounds as it is.
    pub basic_key: i32,
    /// The volume.
    pub volu: i32,
    /// The pan.
    pub pan: i32,
    /// The tuning, as a single-precision pattern.
    pub tuning: u32,
    /// The flags.
    pub flags: u32,
    /// The wave, if the unit has one.
    pub wave: Option<VoiceWave>,
    /// The envelope, if the unit has one.
    pub enve: Option<VoiceEnvelope>,
}

/// What a unit holds.
pub struct VoiceUnitView {
    pub basic_key: i32,
    pub volu: i32,
    pub pan: i32,
    pub tuning: u32,
    pub flags: u32,
    pub wave: Option<VoiceWaveView>,
    pub enve: Option<VoiceEnvelopeView>,
}

impl View for VoiceUnit {
    type V = VoiceUnitView;

    open spec fn view(&self) -> VoiceUnitView {
        VoiceUnitView {
            basic_key: self.basic_key,
            volu: self.volu,
            pan: self.pan,
            tuning: self.tuning,
            flags: self.flags,
            wave: match self.wave {
                Some(wave) => Some(wave@),
                None => None,
            },
            enve: match self.enve {
                Some(enve) => Some(enve@),
                None => None,
            },
        }
    }
}

/// A voice: its basic key and its units, in the order of the file.
#[derive(Clone, Debug, PartialEq, Eq)]
pub struct Voice {
    /// The units.
    pub units: Vec<VoiceUnit>,
    /// The basic key of the voice as a whole.
    pub x3x_basic_key: i32,
}

/// What a voice holds.
pub struct VoiceView {
    pub units: Seq<VoiceUnitView>,
    pub x3x_basic_key: i32,
}

/// What each of `units` holds.
pub open spec fn unit_views(units: Seq<VoiceUnit>) -> Seq<VoiceUnitView> {
    Seq::new(units.len(), |k: int| units[k]@)
}

impl View for Voice {
    type V = VoiceView;

    open spec fn view(&self) -> VoiceView {
        VoiceView { units: unit_views(self.units@), x3x_basic_key: self.x3x_basic_key }
    }
}

/// The point that starts at `at`, with the position behind it: two signed
/// bytes where `narrow` is set, two variable-length fields where it is not.
pub open spec fn point_at(s: Seq<u8>, at: int, narrow: bool) -> Result<(Point, int), Error> {
    if narrow {
        match byte_at(s, at) {
            Err(e) => Err(e),
            Ok((x, at_y)) => match byte_at(s, at_y) {
                Err(e) => Err(e),
                Ok((y, next)) => Ok(
                    (Point { x: signed_byte(x) as i32, y: signed_byte(y) as i32 }, next),
                ),
            },
        }
    } else {
        match var_32(s, at) {
            Err(e) => Err(e),
            Ok((x, at_y)) => match var_32(s, at_y) {
                Err(e) => Err(e),
                Ok((y, next)) => Ok((Point { x: signed_of(x), y: signed_of(y) }, next)),
            },
        }
    }
}

/// The `count` points that start at `at`, with the position behind them.
pub open spec fn points_at(s: Seq<u8>, at: int, count: nat, narrow: bool) -> Result<
    (Seq<Point>, int),
    Error,
>
    decreases count,
{
    if count == 0 {
        Ok((Seq::empty(), at))
    } else {
        match points_at(s, at, (count - 1) as nat, narrow) {
            Err(e) => Err(e),
            Ok((points, at_last)) => match point_at(s, at_last, narrow) {
                Err(e) => Err(e),
                Ok((point, next)) => Ok((points.push(point), next)),
            },
        }
    }
}

/// The wave that starts at `at`, with the position behind it.
pub open spec fn wave_at(s: Seq<u8>, at: int) -> Result<(VoiceWaveView, int), Error> {
    match var_32(s, at) {
        Err(e) => Err(e),
        Ok((index, at_num)) => match VoiceWaveType::of_index(signed_of(index) as int) {
            Some(VoiceWaveType::Coodinate) => match var_32(s, at_num) {
                Err(e) => Err(e),
                Ok((num, at_reso)) => match var_32(s, at_reso) {
                    Err(e) => Err(e),
                    Ok((reso, at_points)) => match points_at(s, at_points, num as nat, true) {
                        Err(e) => Err(e),
                        Ok((points, next)) => Ok(
                            (VoiceWaveView::Coodinate { points, reso: signed_of(reso) }, next),
                        ),
                    },
                },
            },
            Some(VoiceWaveType::Overtone) => match var_32(s, at_num) {
                Err(e) => Err(e),
                Ok((num, at_points)) => match points_at(s, at_points, num as nat, false) {
                    Err(e) => Err(e),
                    Ok((points, next)) => Ok((VoiceWaveView::Overtone { points }, next)),
                },
            },
            _ => Err(Error::UnknownWaveform),
        },
    }
}

/// The envelope that starts at `at`, with the position behind it. It has no
/// body points and one tail point, which stands behind the head points.
pub open spec fn envelope_at(s: Seq<u8>, at: int) -> Result<(VoiceEnvelopeView, int), Error> {
    match var_32(s, at) {
        Err(e) => Err(e),
        Ok((fps, at_head)) => match var_32(s, at_head) {
            Err(e) => Err(e),
            Ok((head_num, at_body)) => match var_32(s, at_body) {
                Err(e) => Err(e),
                Ok((body_num, at_tail)) => match var_32(s, at_tail) {
                    Err(e) => Err(e),
                    Ok((tail_num, at_points)) => if body_num != 0 || tail_num != 1 {
                        Err(Error::UnsupportedVoice)
                    } else {
                        match points_at(s, at_points, (head_num + 1) as nat, false) {
                            Err(e) => Err(e),
                            Ok((points, next)) => Ok(
                                (VoiceEnvelopeView { points, fps: signed_of(fps) }, next),
                            ),
                        }
                    },
                },
            },
        },
    }
}

/// The wave that starts at `at` where the unit has one, with the position
/// behind it.
pub open spec fn optional_wave_at(s: Seq<u8>, at: int, present: bool) -> Result<
    (Option<VoiceWaveView>, int),
    Error,
> {
    if present {
        match wave_at(s, at) {
            Err(e) => Err(e),
            Ok((wave, next)) => Ok((Some(wave), next)),
        }
    } else {
        Ok((None, at))
    }
}

/// The envelope that starts at `at` where the unit has one, with the
/// position behind it.
pub open spec fn optional_envelope_at(s: Seq<u8>, at: int, present: bool) -> Result<
    (Option<VoiceEnvelopeView>, int),
    Error,
> {
    if present {
        match envelope_at(s, at) {
            Err(e) => Err(e),
            Ok((enve, next)) => Ok((Some(enve), next)),
        }
    } else {
        Ok((None, at))
    }
}

/// The numbers that a unit starts with: key, volume, pan, tuning, flags and
/// data flags, with the position behind them.
pub open spec fn unit_head_at(s: Seq<u8>, at: int) -> Result<
    (i32, i32, i32, u32, u32, u32, int),
    Error,
> {
    match var_32(s, at) {
        Err(e) => Err(e),
        Ok((basic_key, at_volu)) => match var_32(s, at_volu) {
            Err(e) => Err(e),
            Ok((volu, at_pan)) => match var_32(s, at_pan) {
                Err(e) => Err(e),
                Ok((pan, at_tuning)) => match var_32(s, at_tuning) {
                    Err(e) => Err(e),
                    Ok((tuning, at_flags)) => match var_32(s, at_flags) {
                        Err(e) => Err(e),
                        Ok((flags, at_data)) => if flags & FLAG_UNCOVERED != 0 {
                            Err(Error::UnknownFeatureFlag)
                        } else {
                            match var_32(s, at_data) {
                                Err(e) => Err(e),
                                Ok((data_flags, next)) => if data_flags & DATA_FLAG_UNCOVERED
                                    != 0 {
                                    Err(Error::UnknownFeatureFlag)
                                } else {
                                    Ok(
                                        (
                                            signed_of(basic_key),
                                            signed_of(volu),
                                            signed_of(pan),
                                            tuning,
                                            flags,
                                            data_flags,
                                            next,
                                        ),
                                    )
                                },
                            }
                        },
                    },
                },
            },
        },
    }
}

/// The unit that starts at `at`, with the position behind it.
#[verifier::opaque]
pub open spec fn unit_at(s: Seq<u8>, at: int) -> Result<(VoiceUnitView, int), Error> {
    match unit_head_at(s, at) {
        Err(e) => Err(e),
        Ok((basic_key, volu, pan, tuning, flags, data_flags, at_wave)) => match optional_wave_at(
            s,
            at_wave,
            data_flags & DATA_FLAG_WAVE != 0,
        ) {
            Err(e) => Err(e),
            Ok((wave, at_enve)) => match optional_envelope_at(
                s,
                at_enve,
                data_flags & DATA_FLAG_ENVELOPE != 0,
            ) {
                Err(e) => Err(e),
                Ok((enve, next)) => Ok(
                    (VoiceUnitView { basic_key, volu, pan, tuning, flags, wave, enve }, next),
                ),
            },
        },
    }
}

/// The `count` units that start at `at`, with the position behind them.
pub open spec fn units_at(s: Seq<u8>, at: int, count: nat) -> Result<
    (Seq<VoiceUnitView>, int),
    Error,
>
    decreases count,
{
    if count == 0 {
        Ok((Seq::empty(), at))
    } else {
        match units_at(s, at, (count - 1) as nat) {
            Err(e) => Err(e),
            Ok((units, at_last)) => match unit_at(s, at_last) {
                Err(e) => Err(e),
                Ok((unit, next)) => Ok((units.push(unit), next)),
            },
        }
    }
}

/// What stands before the units: the basic key and the number of units,
/// with the position of the first unit. Four bytes behind the version are
/// stepped over, and the two words behind the basic key are zero.
pub open spec fn header_at(s: Seq<u8>) -> Result<(i32, u32, int), Error> {
    match literal_at(s, 0, CODE@) {
        Err(e) => Err(e),
        Ok(false) => Err(Error::BadSignature),
        Ok(true) => match fixed_32(s, 8) {
            Err(e) => Err(e),
            Ok((version, at_rest)) => if version > VERSION {
                Err(Error::UnsupportedVersion)
            } else {
                match var_32(s, skipped(s, at_rest, 4)) {
                    Err(e) => Err(e),
                    Ok((basic_key, at_work1)) => match var_32(s, at_work1) {
                        Err(e) => Err(e),
                        Ok((work1, at_work2)) => match var_32(s, at_work2) {
                            Err(e) => Err(e),
                            Ok((work2, at_count)) => if work1 != 0 || work2 != 0 {
                                Err(Error::UnsupportedVoice)
                            } else {
                                match var_32(s, at_count) {
                                    Err(e) => Err(e),
                                    Ok((count, at_units)) => Ok(
                                        (signed_of(basic_key), count, at_units),
                                    ),
                                }
                            },
                        },
                    },
                }
            },
        },
    }
}

/// The voice that the buffer `s` holds.
///
/// What follows the last unit is not looked at.
pub open spec fn voice_at(s: Seq<u8>) -> Result<VoiceView, Error> {
    match header_at(s) {
        Err(e) => Err(e),
        Ok((x3x_basic_key, count, at_units)) => match units_at(s, at_units, count as nat) {
            Err(e) => Err(e),
            Ok((units, _)) => Ok(VoiceView { units, x3x_basic_key }),
        },
    }
}

/// Once reading the points has failed, asking for more points fails alike.
proof fn lemma_points_error_stays(s: Seq<u8>, at: int, fewer: nat, count: nat, narrow: bool)
    requires
        fewer <= count,
        points_at(s, at, fewer, narrow) is Err,
    ensures
        points_at(s, at, count, narrow) == points_at(s, at, fewer, narrow),
    decreases count - fewer,
{
    if fewer < count {
        lemma_points_error_stays(s, at, fewer, (count - 1) as nat, narrow);
    }
}

/// Once reading the units has failed, asking for more units fails alike.
proof fn lemma_units_error_stays(s: Seq<u8>, at: int, fewer: nat, count: nat)
    requires
        fewer <= count,
        units_at(s, at, fewer) is Err,
    ensures
        units_at(s, at, count) == units_at(s, at, fewer),
    decreases count - fewer,
{
    if fewer < count {
        lemma_units_error_stays(s, at, fewer, (count - 1) as nat);
    }
}

fn read_point(bytes: &mut ByteReader, narrow: bool) -> (r: Result<Point, Error>)
    ensures
        final(bytes).source() == old(bytes).source(),
        match point_at(old(bytes).source(), old(bytes).position(), narrow) {
            Ok((point, next)) => r == Ok::<Point, Error>(point) && final(bytes).position() == next,
            Err(e) => r == Err::<Point, Error>(e),
        },
{
    if narrow {
        let x = bytes.read_i8()? as i32;
        let y = bytes.read_i8()? as i32;
        Ok(Point { x, y })
    } else {
        let x = bytes.read_var_i32()?;
        let y = bytes.read_var_i32()?;
        Ok(Point { x, y })
    }
}

fn read_points(bytes: &mut ByteReader, count: u64, narrow: bool) -> (r: Result<Vec<Point>, Error>)
    ensures
        final(bytes).source() == old(bytes).source(),
        match points_at(old(bytes).source(), old(bytes).position(), count as nat, narrow) {
            Ok((points, next)) => r is Ok && r->Ok_0@ == points && final(bytes).position() == next,
            Err(e) => r == Err::<Vec<Point>, Error>(e),
        },
{
    let ghost s = bytes.source();
    let ghost first = bytes.position();
    let mut points: Vec<Point> = Vec::new();
    let mut i: u64 = 0;
    while i < count
        invariant
            i <= count,
            bytes.source() == s,
            s == old(bytes).source(),
            first == old(bytes).position(),
            points_at(s, first, i as nat, narrow) == Ok::<(Seq<Point>, int), Error>(
                (points@, bytes.position()),
            ),
        decreases count - i,
    {
        match read_point(bytes, narrow) {
            Ok(point) => {
                points.push(point);
            },
            Err(e) => {
                proof {
                    lemma_points_error_stays(s, first, (i + 1) as nat, count as nat, narrow);
                }
                return Err(e);
            },
        }
        i = i + 1;
    }
    Ok(points)
}

impl VoiceWave {
    fn read(bytes: &mut ByteReader) -> (r: Result<Self, Error>)
        ensures
            final(bytes).source() == old(bytes).source(),
            match wave_at(old(bytes).source(), old(bytes).position()) {
                Ok((wave, next)) => r is Ok && r->Ok_0@ == wave && final(bytes).position() == next,
                Err(e) => r == Err::<Self, Error>(e),
            },
    {
        let index = bytes.read_var_i32()?;
        match VoiceWaveType::from_i32(index) {
            Some(VoiceWaveType::Coodinate) => {
                let num = bytes.read_var_u32()?;
                let reso = bytes.read_var_i32()?;
                let points = read_points(bytes, num as u64, true)?;
                Ok(VoiceWave::Coodinate { points, reso })
            },
            Some(VoiceWaveType::Overtone) => {
                let num = bytes.read_var_u32()?;
                let points = read_points(bytes, num as u64, false)?;
                Ok(VoiceWave::Overtone { points })
            },
            _ => Err(Error::UnknownWaveform),
        }
    }

    /// Reads one wave.
    ///
    /// Fails with `UnknownWaveform` where the wave is neither a line through
    /// breakpoints nor a set of harmonics.
    ///
    /// On an error the reader stays where it was.
    pub fn new(bytes: &mut ByteReader) -> (r: Result<Self, Error>)
        ensures
            final(bytes).source() == old(bytes).source(),
            match wave_at(old(bytes).source(), old(bytes).position()) {
                Ok((value, next)) => r is Ok && r->Ok_0@ == value
                    && final(bytes).position() == next,
                Err(e) => r == Err::<Self, Error>(e)
                    && final(bytes).position() == old(bytes).position(),
            },
    {
        let start = bytes.offset();
        let r = Self::read(bytes);
        if r.is_err() {
            bytes.seek(start);
        }
        r
    }
}

impl VoiceEnvelope {
    fn read(bytes: &mut ByteReader) -> (r: Result<Self, Error>)
        ensures
            final(bytes).source() == old(bytes).source(),
            match envelope_at(old(bytes).source(), old(bytes).position()) {
                Ok((enve, next)) => r is Ok && r->Ok_0@ == enve && final(bytes).position() == next,
                Err(e) => r == Err::<Self, Error>(e),
            },
    {
        let fps = bytes.read_var_i32()?;
        let head_num = bytes.read_var_u32()?;
        let body_num = bytes.read_var_u32()?;
        let tail_num = bytes.read_var_u32()?;
        if body_num != 0 || tail_num != 1 {
            return Err(Error::UnsupportedVoice);
        }
        let points = read_points(bytes, head_num as u64 + 1, false)?;
        Ok(VoiceEnvelope { points, fps })
    }

    /// Reads one envelope.
    ///
    /// Fails with `UnsupportedVoice` where the envelope has body points or
    /// not exactly one tail point.
    ///
    /// On an error the reader stays where it was.
    pub fn new(bytes: &mut ByteReader) -> (r: Result<Self, Error>)
        ensures
            final(bytes).source() == old(bytes).source(),
            match envelope_at(old(bytes).source(), old(bytes).position()) {
                Ok((value, next)) => r is Ok && r->Ok_0@ == value
                    && final(bytes).position() == next,
                Err(e) => r == Err::<Self, Error>(e)
                    && final(bytes).position() == old(bytes).position(),
            },
    {
        let start = bytes.offset();
        let r = Self::read(bytes);
        if r.is_err() {
            bytes.seek(start);
        }
        r
    }
}

impl VoiceUnit {
    fn read_head(bytes: &mut ByteReader) -> (r: Result<(i32, i32, i32, u32, u32, u32), Error>)
        ensures
            final(bytes).source() == old(bytes).source(),
            match unit_head_at(old(bytes).source(), old(bytes).position()) {
                Ok((basic_key, volu, pan, tuning, flags, data_flags, next)) => r == Ok::<
                    (i32, i32, i32, u32, u32, u32),
                    Error,
                >((basic_key, volu, pan, tuning, flags, data_flags)) && final(bytes).position()
                    == next,
                Err(e) => r == Err::<(i32, i32, i32, u32, u32, u32), Error>(e),
            },
    {
        let basic_key = bytes.read_var_i32()?;
        let volu = bytes.read_var_i32()?;
        let pan = bytes.read_var_i32()?;
        let tuning = bytes.read_var_f32()?;
        let flags = bytes.read_var_u32()?;
        if flags & FLAG_UNCOVERED != 0 {
            return Err(Error::UnknownFeatureFlag);
        }
        let data_flags = bytes.read_var_u32()?;
        if data_flags & DATA_FLAG_UNCOVERED != 0 {
            return Err(Error::UnknownFeatureFlag);
        }
        Ok((basic_key, volu, pan, tuning, flags, data_flags))
    }

    fn read(bytes: &mut ByteReader) -> (r: Result<Self, Error>)
        ensures
            final(bytes).source() == old(bytes).source(),
            match unit_at(old(bytes).source(), old(bytes).position()) {
                Ok((unit, next)) => r is Ok && r->Ok_0@ == unit && final(bytes).position() == next,
                Err(e) => r == Err::<Self, Error>(e),
            },
    {
        reveal(unit_at);
        let (basic_key, volu, pan, tuning, flags, data_flags) = Self::read_head(bytes)?;
        let wave = if data_flags & DATA_FLAG_WAVE != 0 {
            Some(VoiceWave::read(bytes)?)
        } else {
            None
        };
        let enve = if data_flags & DATA_FLAG_ENVELOPE != 0 {
            Some(VoiceEnvelope::read(bytes)?)
        } else {
            None
        };
        Ok(VoiceUnit { basic_key, volu, pan, tuning, flags, wave, enve })
    }

    /// Reads one unit.
    ///
    /// Fails with `UnknownFeatureFlag` where a flag outside the known ones
    /// is set, and as the readers of waves and envelopes do.
    ///
    /// On an error the reader stays where it was.
    pub fn new(bytes: &mut ByteReader) -> (r: Result<Self, Error>)
        ensures
            final(bytes).source() == old(bytes).source(),
            match unit_at(old(bytes).source(), old(bytes).position()) {
                Ok((value, next)) => r is Ok && r->Ok_0@ == value
                    && final(bytes).position() == next,
                Err(e) => r == Err::<Self, Error>(e)
                    && final(bytes).position() == old(bytes).position(),
            },
    {
        let start = bytes.offset();
        let r = Self::read(bytes);
        if r.is_err() {
            bytes.seek(start);
        }
        r
    }
}

impl Voice {
    fn read_header(reader: &mut ByteReader) -> (r: Result<(i32, u32), Error>)
        requires
            old(reader).position() == 0,
        ensures
            final(reader).source() == old(reader).source(),
            match header_at(old(reader).source()) {
                Ok((basic_key, count, at_units)) => r == Ok::<(i32, u32), Error>(
                    (basic_key, count),
                ) && final(reader).position() == at_units,
                Err(e) => r == Err::<(i32, u32), Error>(e),
            },
    {
        if !reader.read_exact(CODE.as_slice())? {
            return Err(Error::BadSignature);
        }
        let version = reader.read_u32()?;
        if version > VERSION {
            return Err(Error::UnsupportedVersion);
        }
        reader.skip(4);
        let x3x_basic_key = reader.read_var_i32()?;
        let work1 = reader.read_var_u32()?;
        let work2 = reader.read_var_u32()?;
        if work1 != 0 || work2 != 0 {
            return Err(Error::UnsupportedVoice);
        }
        let unit_num = reader.read_var_u32()?;
        Ok((x3x_basic_key, unit_num))
    }

    fn read_units(reader: &mut ByteReader, unit_num: u32) -> (r: Result<Vec<VoiceUnit>, Error>)
        ensures
            final(reader).source() == old(reader).source(),
            match units_at(old(reader).source(), old(reader).position(), unit_num as nat) {
                Ok((units, next)) => r is Ok && unit_views(r->Ok_0@) == units,
                Err(e) => r == Err::<Vec<VoiceUnit>, Error>(e),
            },
    {
        let ghost s = reader.source();
        let ghost first = reader.position();
        let mut units: Vec<VoiceUnit> = Vec::new();
        let mut i: u32 = 0;
        assert(unit_views(units@) =~= Seq::empty());
        while i < unit_num
            invariant
                i <= unit_num,
                reader.source() == s,
                s == old(reader).source(),
                first == old(reader).position(),
                units_at(s, first, i as nat) == Ok::<(Seq<VoiceUnitView>, int), Error>(
                    (unit_views(units@), reader.position()),
                ),
            decreases unit_num - i,
        {
            match VoiceUnit::new(reader) {
                Ok(unit) => {
                    proof {
                        assert(unit_views(units@.push(unit)) =~= unit_views(units@).push(unit@));
                    }
                    units.push(unit);
                },
                Err(e) => {
                    proof {
                        lemma_units_error_stays(s, first, (i + 1) as nat, unit_num as nat);
                    }
                    return Err(e);
                },
            }
            i = i + 1;
        }
        Ok(units)
    }

    /// Reads a voice from a whole buffer.
    ///
    /// The result is the voice that the buffer holds, or the first fault met
    /// on the way through it: `BadSignature`, `UnsupportedVersion`,
    /// `UnsupportedVoice` where one of the two reserved words is set, a
    /// truncated or malformed field, or the fault of a unit.
    pub fn new(bytes: &[u8]) -> (r: Result<Self, Error>)
        ensures
            match voice_at(bytes@) {
                Ok(voice) => r is Ok && r->Ok_0@ == voice,
                Err(e) => r == Err::<Self, Error>(e),
            },
    {
        let mut reader = ByteReader::new(bytes);
        let (x3x_basic_key, unit_num) = Self::read_header(&mut reader)?;
        let units = Self::read_units(&mut reader, unit_num)?;
        Ok(Voice { units, x3x_basic_key })
    }
}

} // verus!
