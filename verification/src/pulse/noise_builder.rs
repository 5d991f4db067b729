//! The state that a rendering keeps in whole numbers, and the assembly of
//! its output.
//!
//! Rendering multiplies and adds in floating point, which is done by the
//! caller. What is decided in whole numbers is here: which table sample an
//! oscillator gives at a phase position, how the noise of a random
//! oscillator moves on, where a unit stands in its envelope, how many frames
//! are due, and how a mixed amplitude becomes the bytes of a sample.

use crate::byte_order;
use crate::error::Error;
use crate::helper::Point;
use crate::pulse::noise_table::NoiseTables;
use crate::pulse::noise_table::RawKind;
use crate::pulse::noise_table::SMP_NUM;
use crate::pulse::noise_table::SMP_NUM_RAND;
use crate::pulse::pcm::Pcm;
use crate::pulse::pcm::PcmWaveFormat;
use crate::pulse::pcm::Sample;
use crate::pulse::Noise;
use crate::pulse::NoiseOscillator;
use crate::pulse::NoiseUnit;
use crate::pulse::NoiseWave;
use vstd::prelude::*;

verus! {

/// The sample rate that durations and frequencies are stated for.
pub const BASIC_SPS: u32 = 44100;

/// The frequency of which one cycle fills a table, in hertz.
pub const BASIC_FREQUENCY: u32 = 100;

/// The key that a frequency oscillator reaches at full scale.
pub const KEY_TOP: u32 = 0x3200;

/// The quotient of `numer` by `denom`, rounded towards zero.
pub open spec fn toward_zero(numer: int, denom: int) -> int {
    if numer >= 0 {
        numer / denom
    } else {
        -((-numer) / denom)
    }
}

/// The part that an oscillator plays in its unit.
#[derive(Clone, Copy, Debug, PartialEq, Eq, Structural)]
pub enum OscillatorKind {
    Main,
    Volu,
    Freq,
}

/// How a random oscillator moves from one noise sample to the next.
#[derive(Clone, Copy, Debug, PartialEq, Eq, Structural)]
pub enum RandomKind {
    /// It holds each noise sample for a cycle.
    Saw,
    /// It slides from each noise sample towards the next.
    Rect,
}

/// The wave of an oscillator while it is rendered.
#[allow(inconsistent_fields)]
#[derive(Clone, Copy, Debug, PartialEq, Eq, Structural)]
pub enum NoiseBuilderWave {
    /// No wave: every sample is zero.
    Silent,
    /// A cycle of a fixed shape.
    Raw { kind: RawKind },
    /// Noise: `start` is the level at the start of the cycle, `margin` the
    /// way from there to the next level, `index` the place in the noise
    /// sequence.
    Random { kind: RandomKind, start: i32, margin: i32, index: usize },
}

/// The cycle that stands for a shape of the document, for the shapes that
/// have one.
pub open spec fn raw_kind_of(wave: NoiseWave) -> Option<RawKind> {
    match wave {
        NoiseWave::Sine => Some(RawKind::Sine),
        NoiseWave::Saw => Some(RawKind::Saw),
        NoiseWave::Rect => Some(RawKind::Rect),
        NoiseWave::Saw2 => Some(RawKind::Saw2),
        NoiseWave::Rect2 => Some(RawKind::Rect2),
        NoiseWave::Tri => Some(RawKind::Tri),
        NoiseWave::Rect3 => Some(RawKind::Rect3),
        NoiseWave::Rect4 => Some(RawKind::Rect4),
        NoiseWave::Rect8 => Some(RawKind::Rect8),
        NoiseWave::Rect16 => Some(RawKind::Rect16),
        NoiseWave::Saw3 => Some(RawKind::Saw3),
        NoiseWave::Saw4 => Some(RawKind::Saw4),
        NoiseWave::Saw6 => Some(RawKind::Saw6),
        NoiseWave::Saw8 => Some(RawKind::Saw8),
        _ => None,
    }
}

/// The place in the noise sequence that `index` stands for: itself within the
/// sequence, the beginning behind its end.
pub open spec fn noise_place(index: usize) -> usize {
    if index >= SMP_NUM_RAND {
        0
    } else {
        index
    }
}

/// Whether the shape is one of the two that are made of noise.
pub open spec fn is_random(wave: NoiseWave) -> bool {
    wave == NoiseWave::Random || wave == NoiseWave::Random2
}

impl NoiseBuilderWave {
    /// A random wave points into the noise sequence, and its levels are what
    /// two samples of the sequence can give.
    pub open spec fn wf(self) -> bool {
        match self {
            NoiseBuilderWave::Random { start, margin, index, .. } => index < SMP_NUM_RAND
                && -0x8000 <= start <= 0x7fff && -0xffff <= margin <= 0xffff,
            _ => true,
        }
    }

    /// The sample of the wave at the phase position `offset`.
    pub open spec fn sample_at(self, offset: int, tables: &NoiseTables) -> int {
        match self {
            NoiseBuilderWave::Silent => 0,
            NoiseBuilderWave::Raw { kind } => tables.cycle(kind)[offset] as int,
            NoiseBuilderWave::Random { kind, start, margin, .. } => match kind {
                RandomKind::Rect => start + toward_zero(margin * offset, SMP_NUM as int),
                RandomKind::Saw => start as int,
            },
        }
    }

    /// The wave of a random oscillator that starts at `index` of the noise
    /// sequence: it starts from level zero, on the way to the sample there.
    /// The sequence is a circle: an index behind its end is its beginning.
    pub fn init_random(kind: &NoiseWave, index: usize, tables: &NoiseTables) -> (wave: Self)
        requires
            is_random(*kind),
        ensures
            wave == (NoiseBuilderWave::Random {
                kind: if *kind == NoiseWave::Random {
                    RandomKind::Rect
                } else {
                    RandomKind::Saw
                },
                start: 0,
                margin: tables.noise()[noise_place(index) as int] as i32,
                index: noise_place(index),
            }),
            wave.wf(),
    {
        let kind = match kind {
            NoiseWave::Random => RandomKind::Rect,
            _ => RandomKind::Saw,
        };
        let place: usize = if index >= SMP_NUM_RAND {
            0
        } else {
            index
        };
        let margin = tables.random(place) as i32;
        NoiseBuilderWave::Random { kind, start: 0, margin, index: place }
    }

    /// The sample of the wave at the phase position `offset`.
    pub fn get_sample(&self, offset: u32, tables: &NoiseTables) -> (sample: i32)
        requires
            self.wf(),
            self is Raw ==> offset < SMP_NUM,
            self is Random ==> offset <= SMP_NUM,
        ensures
            sample == self.sample_at(offset as int, tables),
            -0x1_8000 <= sample <= 0x1_8000,
    {
        match self {
            NoiseBuilderWave::Silent => 0,
            NoiseBuilderWave::Raw { kind } => tables.sample(*kind, offset as usize) as i32,
            NoiseBuilderWave::Random { kind, start, margin, .. } => match kind {
                RandomKind::Rect => {
                    assert(-0xffff * 441 <= *margin * (offset as i32) <= 0xffff * 441)
                        by (nonlinear_arith)
                        requires
                            -0xffff <= *margin <= 0xffff,
                            0 <= offset as i32 <= 441,
                    ;
                    let scaled: i32 = *margin * (offset as i32);
                    let slide: i32 = if scaled >= 0 {
                        scaled / 441
                    } else {
                        -((-scaled) / 441)
                    };
                    *start + slide
                },
                RandomKind::Saw => *start,
            },
        }
    }

    /// The wave after one more sample: a random wave starts from the noise
    /// sample at its place, with no way to go; the other waves stay as they
    /// are.
    pub open spec fn advanced(self, tables: &NoiseTables) -> Self {
        match self {
            NoiseBuilderWave::Random { kind, start, margin, index } => NoiseBuilderWave::Random {
                kind,
                start: tables.noise()[index as int] as i32,
                margin: 0,
                index,
            },
            _ => self,
        }
    }
}


/// An oscillator while it is rendered.
///
/// The phase position and its increment are floating-point numbers and are
/// kept by the caller, who computes them from `freq`, `volu` and `offset`.
#[derive(Clone, Copy, Debug, PartialEq, Eq, Structural)]
pub struct NoiseBuilderOscillator {
    /// The part that the oscillator plays in its unit.
    pub kind: OscillatorKind,
    /// The wave.
    pub wave: NoiseBuilderWave,
    /// Whether the wave is turned upside down.
    pub rev: bool,
    /// The frequency in tenths of a hertz, as a single-precision pattern.
    pub freq: u32,
    /// The volume in tenths of a percent, as a single-precision pattern.
    pub volu: u32,
    /// The phase offset in tenths of a percent, as a single-precision pattern.
    pub offset: u32,
}

/// The wave that renders a shape of the document; for a shape made of noise,
/// the wave that starts at the place of `index` in the noise sequence.
pub open spec fn wave_of(shape: NoiseWave, index: usize, tables: &NoiseTables) -> NoiseBuilderWave {
    match raw_kind_of(shape) {
        Some(kind) => NoiseBuilderWave::Raw { kind },
        None => if is_random(shape) {
            NoiseBuilderWave::Random {
                kind: if shape == NoiseWave::Random {
                    RandomKind::Rect
                } else {
                    RandomKind::Saw
                },
                start: 0,
                margin: tables.noise()[noise_place(index) as int] as i32,
                index: noise_place(index),
            }
        } else {
            NoiseBuilderWave::Silent
        },
    }
}

impl NoiseBuilderOscillator {
    /// The wave is well formed.
    pub open spec fn wf(self) -> bool {
        self.wave.wf()
    }

    /// The oscillator that stands in for one that the unit does not have: it
    /// is silent.
    pub fn empty(kind: OscillatorKind) -> (r: Self)
        ensures
            r == (NoiseBuilderOscillator {
                kind,
                wave: NoiseBuilderWave::Silent,
                rev: false,
                freq: 0,
                volu: 0,
                offset: 0,
            }),
            r.wf(),
    {
        NoiseBuilderOscillator {
            kind,
            wave: NoiseBuilderWave::Silent,
            rev: false,
            freq: 0,
            volu: 0,
            offset: 0,
        }
    }

    /// The oscillator that renders `osc` in the part `kind`. Where its shape
    /// is made of noise, it starts at `index` of the noise sequence.
    pub fn new(
        osc: &NoiseOscillator,
        kind: OscillatorKind,
        index: usize,
        tables: &NoiseTables,
    ) -> (r: Self)
        ensures
            r == (NoiseBuilderOscillator {
                kind,
                wave: wave_of(osc.wave, index, tables),
                rev: osc.rev,
                freq: osc.freq,
                volu: osc.volu,
                offset: osc.offset,
            }),
            r.wf(),
    {
        let wave = match osc.wave {
            NoiseWave::Silent => NoiseBuilderWave::Silent,
            NoiseWave::Sine => NoiseBuilderWave::Raw { kind: RawKind::Sine },
            NoiseWave::Saw => NoiseBuilderWave::Raw { kind: RawKind::Saw },
            NoiseWave::Rect => NoiseBuilderWave::Raw { kind: RawKind::Rect },
            NoiseWave::Saw2 => NoiseBuilderWave::Raw { kind: RawKind::Saw2 },
            NoiseWave::Rect2 => NoiseBuilderWave::Raw { kind: RawKind::Rect2 },
            NoiseWave::Tri => NoiseBuilderWave::Raw { kind: RawKind::Tri },
            NoiseWave::Rect3 => NoiseBuilderWave::Raw { kind: RawKind::Rect3 },
            NoiseWave::Rect4 => NoiseBuilderWave::Raw { kind: RawKind::Rect4 },
            NoiseWave::Rect8 => NoiseBuilderWave::Raw { kind: RawKind::Rect8 },
            NoiseWave::Rect16 => NoiseBuilderWave::Raw { kind: RawKind::Rect16 },
            NoiseWave::Saw3 => NoiseBuilderWave::Raw { kind: RawKind::Saw3 },
            NoiseWave::Saw4 => NoiseBuilderWave::Raw { kind: RawKind::Saw4 },
            NoiseWave::Saw6 => NoiseBuilderWave::Raw { kind: RawKind::Saw6 },
            NoiseWave::Saw8 => NoiseBuilderWave::Raw { kind: RawKind::Saw8 },
            NoiseWave::Random => NoiseBuilderWave::init_random(&osc.wave, index, tables),
            NoiseWave::Random2 => NoiseBuilderWave::init_random(&osc.wave, index, tables),
        };
        NoiseBuilderOscillator {
            kind,
            wave,
            rev: osc.rev,
            freq: osc.freq,
            volu: osc.volu,
            offset: osc.offset,
        }
    }

    /// The sample of the oscillator at the phase position `offset`: that of
    /// its wave, turned upside down where `rev` is set, before it is scaled
    /// or weighted. A main oscillator gives zero at a position below zero.
    pub open spec fn sample_at(self, offset: int, tables: &NoiseTables) -> int {
        let sample = if self.kind == OscillatorKind::Main && offset < 0 {
            0
        } else {
            self.wave.sample_at(offset, tables)
        };
        if self.rev {
            -sample
        } else {
            sample
        }
    }

    /// Whether `offset` is a phase position at which the oscillator can be
    /// asked for a sample: within the cycle, and not below zero but for a
    /// main oscillator.
    pub open spec fn in_cycle(self, offset: int) -> bool {
        &&& self.kind != OscillatorKind::Main ==> 0 <= offset
        &&& self.wave is Raw ==> offset < SMP_NUM
        &&& self.wave is Random ==> offset <= SMP_NUM
    }

    /// Tells whether the oscillator can be asked for a sample at `offset`.
    pub fn can_sample(&self, offset: i32) -> (r: bool)
        ensures
            r == self.in_cycle(offset as int),
    {
        let above = match self.kind {
            OscillatorKind::Main => true,
            _ => offset >= 0,
        };
        let below = match self.wave {
            NoiseBuilderWave::Silent => true,
            NoiseBuilderWave::Raw { .. } => offset < SMP_NUM as i32,
            NoiseBuilderWave::Random { .. } => offset <= SMP_NUM as i32,
        };
        above && below
    }

    /// Tells whether the wave is well formed.
    pub fn is_valid(&self) -> (r: bool)
        ensures
            r == self.wf(),
    {
        match self.wave {
            NoiseBuilderWave::Random { start, margin, index, .. } => index < SMP_NUM_RAND
                && -0x8000 <= start && start <= 0x7fff && -0xffff <= margin && margin <= 0xffff,
            _ => true,
        }
    }

    /// The sample of the oscillator at the phase position `offset`.
    pub fn get_sample(&self, offset: i32, tables: &NoiseTables) -> (sample: i32)
        requires
            self.wf(),
            self.in_cycle(offset as int),
        ensures
            sample == self.sample_at(offset as int, tables),
            -0x1_8000 <= sample <= 0x1_8000,
    {
        let sample: i32 = match self.kind {
            OscillatorKind::Main => {
                if offset >= 0 {
                    self.wave.get_sample(offset as u32, tables)
                } else {
                    0
                }
            },
            _ => self.wave.get_sample(offset as u32, tables),
        };
        if self.rev {
            -sample
        } else {
            sample
        }
    }

    /// Whether the samples of the oscillator are keys: those of a cycle of a
    /// frequency oscillator, which are scaled from full scale to the top key.
    pub fn scaled_to_key(&self) -> (r: bool)
        ensures
            r == (self.kind == OscillatorKind::Freq && self.wave is Raw),
    {
        match self.kind {
            OscillatorKind::Freq => match self.wave {
                NoiseBuilderWave::Raw { .. } => true,
                _ => false,
            },
            _ => false,
        }
    }

    /// The oscillator after one more sample: its wave has advanced.
    pub open spec fn advanced(self, tables: &NoiseTables) -> Self {
        NoiseBuilderOscillator { wave: self.wave.advanced(tables), ..self }
    }

    /// Moves the wave on by one sample.
    pub fn increment(&mut self, tables: &NoiseTables)
        requires
            old(self).wf(),
        ensures
            *final(self) == old(self).advanced(tables),
            final(self).wf(),
    {
        match self.wave {
            NoiseBuilderWave::Random { kind, start, margin, index } => {
                let next_start = tables.random(index) as i32;
                self.wave = NoiseBuilderWave::Random { kind, start: next_start, margin: 0, index };
            },
            _ => {},
        }
    }
}


/// One breakpoint of an envelope while it is rendered.
#[derive(Clone, Copy, Debug, PartialEq, Eq, Structural)]
pub struct NoiseBuilderPoint {
    /// The length of the way to the breakpoint, in samples at the target
    /// rate.
    pub smp: i32,
    /// The level at the breakpoint, in percent.
    pub mag: i32,
}

/// Where a unit stands in its envelope.
///
/// While `index` is that of a breakpoint, the level is `start` and
/// `count / smp` of `margin`, with the `smp` of that breakpoint; behind the last
/// breakpoint it is `start`. The levels are in percent.
pub struct Envelope {
    pub index: int,
    pub start: int,
    pub margin: int,
    pub count: int,
}

/// The breakpoint that renders `point` at `sps` samples per second.
pub open spec fn builder_point(point: Point, sps: u32) -> NoiseBuilderPoint {
    NoiseBuilderPoint { smp: (sps * point.x / 1000) as i32, mag: point.y }
}

/// The breakpoints that render `points` at `sps` samples per second.
pub open spec fn builder_points(points: Seq<Point>, sps: u32) -> Seq<NoiseBuilderPoint> {
    Seq::new(points.len(), |k: int| builder_point(points[k], sps))
}

/// The gains of the two channels for a pan, in percent: both are full at the
/// centre; a pan below zero lowers the second, a pan above zero lowers the
/// first. No gain is above full.
pub open spec fn pan_gains(pan: i8) -> (int, int) {
    if pan == 0 {
        (100, 100)
    } else if pan < 0 {
        (100, 100 + pan)
    } else {
        (100 - pan, 100)
    }
}

/// The envelope before anything is known of its breakpoints: at level zero,
/// before the first breakpoint.
pub open spec fn envelope_start() -> Envelope {
    Envelope { index: 0, start: 0, margin: 0, count: 0 }
}

/// Where the envelope stands before the first sample: on the way from level
/// zero to the first breakpoint that has a length, or behind the last
/// breakpoint.
pub open spec fn envelope_begin(enves: Seq<NoiseBuilderPoint>) -> Envelope {
    envelope_settled(enves, envelope_start())
}

/// The place at which the envelope comes to rest when it has reached
/// `state.index`: on the first breakpoint from there on that has a length,
/// on the way from `state.start` to its level, or behind the last
/// breakpoint. A breakpoint without a length is passed at once and leaves its
/// level.
pub open spec fn envelope_settled(enves: Seq<NoiseBuilderPoint>, state: Envelope) -> Envelope
    decreases enves.len() - state.index,
{
    if state.index < enves.len() {
        let enve = enves[state.index];
        let margin = enve.mag - state.start;
        if enve.smp != 0 {
            Envelope { margin, ..state }
        } else {
            envelope_settled(
                enves,
                Envelope { index: state.index + 1, start: enve.mag as int, margin, count: 0 },
            )
        }
    } else {
        state
    }
}

/// Where the envelope stands one sample after `state`.
pub open spec fn envelope_step(enves: Seq<NoiseBuilderPoint>, state: Envelope) -> Envelope {
    if state.index < enves.len() {
        let current = enves[state.index];
        if state.count + 1 >= current.smp {
            envelope_settled(
                enves,
                Envelope { index: state.index + 1, start: current.mag as int, margin: 0, count: 0 },
            )
        } else {
            Envelope { count: state.count + 1, ..state }
        }
    } else {
        state
    }
}

/// Where the envelope stands after `steps` samples.
pub open spec fn envelope_after(enves: Seq<NoiseBuilderPoint>, steps: nat) -> Envelope
    decreases steps,
{
    if steps == 0 {
        envelope_begin(enves)
    } else {
        envelope_step(enves, envelope_after(enves, (steps - 1) as nat))
    }
}

/// The lengths and levels of the breakpoints are within what the format
/// allows.
pub open spec fn points_wf(enves: Seq<NoiseBuilderPoint>) -> bool {
    &&& enves.len() <= 3
    &&& forall|k: int|
        0 <= k < enves.len() ==> 0 <= (#[trigger] enves[k]).smp <= 480_000 && 0 <= enves[k].mag
            <= 100
}

/// The breakpoints and the place in them fit together: the breakpoints are
/// well formed, the envelope is on the way to a breakpoint that has a length
/// or behind the last one, the count has not reached that length, and the
/// way leads to a level within the range.
pub open spec fn envelope_wf(enves: Seq<NoiseBuilderPoint>, state: Envelope) -> bool {
    &&& points_wf(enves)
    &&& 0 <= state.index <= enves.len()
    &&& 0 <= state.start <= 100
    &&& -100 <= state.margin <= 100
    &&& state.count >= 0
    &&& state.index < enves.len() ==> state.count < enves[state.index].smp
    &&& state.index < enves.len() ==> 0 <= state.start + state.margin <= 100
}

/// Settling leaves the breakpoints and the place in them fitting together.
pub proof fn lemma_settled_wf(enves: Seq<NoiseBuilderPoint>, state: Envelope)
    requires
        points_wf(enves),
        0 <= state.index <= enves.len(),
        0 <= state.start <= 100,
        -100 <= state.margin <= 100,
        state.count == 0,
    ensures
        envelope_wf(enves, envelope_settled(enves, state)),
    decreases enves.len() - state.index,
{
    if state.index < enves.len() {
        let enve = enves[state.index];
        let margin = enve.mag - state.start;
        if enve.smp == 0 {
            lemma_settled_wf(
                enves,
                Envelope { index: state.index + 1, start: enve.mag as int, margin, count: 0 },
            );
        }
    }
}

/// A step keeps the breakpoints and the place in them fitting together.
pub proof fn lemma_step_wf(enves: Seq<NoiseBuilderPoint>, state: Envelope)
    requires
        envelope_wf(enves, state),
    ensures
        envelope_wf(enves, envelope_step(enves, state)),
{
    if state.index < enves.len() {
        let current = enves[state.index];
        if state.count + 1 >= current.smp {
            lemma_settled_wf(
                enves,
                Envelope { index: state.index + 1, start: current.mag as int, margin: 0, count: 0 },
            );
        }
    }
}

/// Settling behind the last breakpoint leaves the level of the last
/// breakpoint.
proof fn lemma_settled_rests_at_last_level(enves: Seq<NoiseBuilderPoint>, state: Envelope)
    requires
        enves.len() >= 1,
        0 <= state.index <= enves.len(),
        state.index >= 1 ==> state.start == enves[state.index - 1].mag,
    ensures
        envelope_settled(enves, state).index == enves.len() ==> envelope_settled(
            enves,
            state,
        ).start == enves[enves.len() - 1].mag,
    decreases enves.len() - state.index,
{
    if state.index < enves.len() {
        let enve = enves[state.index];
        if enve.smp == 0 {
            lemma_settled_rests_at_last_level(
                enves,
                Envelope {
                    index: state.index + 1,
                    start: enve.mag as int,
                    margin: enve.mag - state.start,
                    count: 0,
                },
            );
        }
    }
}

/// Once the last breakpoint is passed, the level is held at the level of
/// that breakpoint: an envelope that has breakpoints and stands behind the
/// last of them starts from its level, and stays as it is from then on.
pub proof fn lemma_rest_at_last_level(enves: Seq<NoiseBuilderPoint>, steps: nat)
    requires
        enves.len() >= 1,
    ensures
        0 <= envelope_after(enves, steps).index <= enves.len(),
        envelope_after(enves, steps).index == enves.len() ==> envelope_after(enves, steps).start
            == enves[enves.len() - 1].mag && envelope_after(enves, steps + 1) == envelope_after(
            enves,
            steps,
        ),
    decreases steps,
{
    if steps == 0 {
        lemma_settled_rests_at_last_level(enves, envelope_start());
        lemma_settled_index(enves, envelope_start());
    } else {
        lemma_rest_at_last_level(enves, (steps - 1) as nat);
        let before = envelope_after(enves, (steps - 1) as nat);
        if before.index < enves.len() {
            let current = enves[before.index];
            if before.count + 1 >= current.smp {
                let moved = Envelope {
                    index: before.index + 1,
                    start: current.mag as int,
                    margin: 0,
                    count: 0,
                };
                lemma_settled_rests_at_last_level(enves, moved);
                lemma_settled_index(enves, moved);
            }
        }
    }
}

/// Settling moves on to a breakpoint or behind the last one, never back.
proof fn lemma_settled_index(enves: Seq<NoiseBuilderPoint>, state: Envelope)
    requires
        0 <= state.index <= enves.len(),
    ensures
        state.index <= envelope_settled(enves, state).index <= enves.len(),
    decreases enves.len() - state.index,
{
    if state.index < enves.len() {
        let enve = enves[state.index];
        if enve.smp == 0 {
            lemma_settled_index(
                enves,
                Envelope {
                    index: state.index + 1,
                    start: enve.mag as int,
                    margin: enve.mag - state.start,
                    count: 0,
                },
            );
        }
    }
}

/// From the first sample on, the breakpoints and the place in them fit
/// together: the envelope is never on the way to a breakpoint without a
/// length.
pub proof fn lemma_after_wf(enves: Seq<NoiseBuilderPoint>, steps: nat)
    requires
        points_wf(enves),
    ensures
        envelope_wf(enves, envelope_after(enves, steps)),
    decreases steps,
{
    if steps == 0 {
        lemma_settled_wf(enves, envelope_start());
    } else {
        lemma_after_wf(enves, (steps - 1) as nat);
        lemma_step_wf(enves, envelope_after(enves, (steps - 1) as nat));
    }
}

/// On the way to a breakpoint the level stays within the range of levels:
/// the way has a length, and the start and `count / smp` of the margin lie
/// between 0 and 100 percent. The bounds are stated times `smp`.
pub proof fn lemma_level_in_range(enves: Seq<NoiseBuilderPoint>, state: Envelope)
    requires
        envelope_wf(enves, state),
        state.index < enves.len(),
    ensures
        enves[state.index].smp > 0,
        0 <= state.start * enves[state.index].smp + state.margin * state.count <= 100
            * enves[state.index].smp,
{
    let smp = enves[state.index].smp as int;
    let start = state.start;
    let margin = state.margin;
    let count = state.count;
    assert(0 <= start * smp + margin * count <= 100 * smp) by (nonlinear_arith)
        requires
            0 <= count < smp,
            0 <= start <= 100,
            0 <= start + margin <= 100,
    ;
}

/// An envelope of one breakpoint at time zero and level zero is at level
/// zero throughout: before the first sample and after any number of samples
/// it stands behind its breakpoint, and both the level that it starts from
/// and the way that it has to go are zero.
pub proof fn lemma_zero_envelope_stays_zero(enves: Seq<NoiseBuilderPoint>, steps: nat)
    requires
        enves == seq![NoiseBuilderPoint { smp: 0, mag: 0 }],
    ensures
        envelope_after(enves, steps) == (Envelope { index: 1, start: 0, margin: 0, count: 0 }),
    decreases steps,
{
    let rest = Envelope { index: 1, start: 0, margin: 0, count: 0 };
    if steps == 0 {
        assert(envelope_settled(enves, rest) == rest);
        assert(envelope_settled(enves, envelope_start()) == rest);
    } else {
        lemma_zero_envelope_stays_zero(enves, (steps - 1) as nat);
    }
}


/// The sample rates that can be rendered.
pub open spec fn is_rate(sps: u32) -> bool {
    sps == 11025 || sps == 22050 || sps == 44100 || sps == 48000
}

/// The terms of the envelope level on the way to a breakpoint: the level is
/// the start and `count / smp` of `margin`. The way has a length, and the
/// count is below it.
#[derive(Clone, Copy, Debug, PartialEq, Eq, Structural)]
pub struct Ramp {
    /// The way from the start to the level of the breakpoint, in percent.
    pub margin: i32,
    /// The samples gone since the start.
    pub count: u32,
    /// The length of the way, in samples.
    pub smp: i32,
}

/// What a unit gives for one sample, before the floating-point arithmetic:
/// the samples of its three oscillators, each turned where its oscillator is
/// reversed, and the terms of its envelope level.
#[derive(Clone, Copy, Debug, PartialEq, Eq, Structural)]
pub struct UnitSample {
    /// The sample of the main oscillator.
    pub main: i32,
    /// The sample of the frequency oscillator.
    pub freq: i32,
    /// The sample of the volume oscillator.
    pub volu: i32,
    /// The level that the envelope starts from, in percent.
    pub mag_start: i32,
    /// The way that the envelope is on, or nothing behind the last
    /// breakpoint, where the level rests at the start.
    pub ramp: Option<Ramp>,
}

/// A unit while it is rendered.
#[derive(Clone, Debug, PartialEq, Eq)]
pub struct NoiseBuilderUnit {
    /// Whether the unit is heard.
    pub enable: bool,
    /// The gains of the two channels, in percent.
    pub pan: [i32; 2],
    /// The breakpoints of the envelope.
    pub enves: Vec<NoiseBuilderPoint>,
    /// The breakpoint that the envelope is on the way to.
    pub enve_index: usize,
    /// The level that the envelope started from, in percent.
    pub enve_mag_start: i32,
    /// The way from there to the level of the breakpoint, in percent.
    pub enve_mag_margin: i32,
    /// The samples gone on the way.
    pub enve_count: u32,
    /// The oscillator that is heard.
    pub main: NoiseBuilderOscillator,
    /// The oscillator that bends the frequency of the main one.
    pub freq: NoiseBuilderOscillator,
    /// The oscillator that scales the volume of the main one.
    pub volu: NoiseBuilderOscillator,
}

/// The oscillator that renders what a unit has in the part `kind`.
pub open spec fn oscillator_of(
    osc: Option<NoiseOscillator>,
    kind: OscillatorKind,
    index: usize,
    tables: &NoiseTables,
) -> NoiseBuilderOscillator {
    match osc {
        Some(osc) => NoiseBuilderOscillator {
            kind,
            wave: wave_of(osc.wave, index, tables),
            rev: osc.rev,
            freq: osc.freq,
            volu: osc.volu,
            offset: osc.offset,
        },
        None => NoiseBuilderOscillator {
            kind,
            wave: NoiseBuilderWave::Silent,
            rev: false,
            freq: 0,
            volu: 0,
            offset: 0,
        },
    }
}

/// Passes over the breakpoints without a length from `index` on, starting
/// from the level `start`, and gives the breakpoint that the envelope comes to
/// rest on, the level that it starts from there, and the way to go.
fn settle(enves: &Vec<NoiseBuilderPoint>, index: usize, start: i32) -> (r: (usize, i32, i32))
    requires
        points_wf(enves@),
        index <= enves@.len(),
        0 <= start <= 100,
    ensures
        envelope_settled(
            enves@,
            Envelope { index: index as int, start: start as int, margin: 0, count: 0 },
        ) == (Envelope { index: r.0 as int, start: r.1 as int, margin: r.2 as int, count: 0 }),
{
    let ghost entered = Envelope { index: index as int, start: start as int, margin: 0, count: 0 };
    let mut index: usize = index;
    let mut start: i32 = start;
    let mut margin: i32 = 0;
    while index < enves.len()
        invariant_except_break
            envelope_settled(
                enves@,
                Envelope {
                    index: index as int,
                    start: start as int,
                    margin: margin as int,
                    count: 0,
                },
            ) == envelope_settled(enves@, entered),
        invariant
            points_wf(enves@),
            index <= enves@.len(),
            0 <= start <= 100,
        ensures
            envelope_settled(enves@, entered) == (Envelope {
                index: index as int,
                start: start as int,
                margin: margin as int,
                count: 0,
            }),
        decreases enves@.len() - index,
    {
        let enve = enves[index];
        margin = enve.mag - start;
        if enve.smp != 0 {
            break ;
        }
        start = enve.mag;
        index = index + 1;
    }
    (index, start, margin)
}

impl NoiseBuilderUnit {
    /// Where the unit stands in its envelope.
    pub open spec fn envelope(&self) -> Envelope {
        Envelope {
            index: self.enve_index as int,
            start: self.enve_mag_start as int,
            margin: self.enve_mag_margin as int,
            count: self.enve_count as int,
        }
    }

    /// The envelope and the oscillators are well formed.
    pub open spec fn wf(&self) -> bool {
        &&& envelope_wf(self.enves@, self.envelope())
        &&& self.main.wf()
        &&& self.freq.wf()
        &&& self.volu.wf()
        &&& self.main.kind == OscillatorKind::Main
        &&& self.freq.kind == OscillatorKind::Freq
        &&& self.volu.kind == OscillatorKind::Volu
    }

    /// Tells whether the envelope and the oscillators are well formed.
    pub fn is_valid(&self) -> (r: bool)
        ensures
            r == self.wf(),
    {
        if self.enves.len() > 3 || self.enve_index > self.enves.len() {
            return false;
        }
        let mut k: usize = 0;
        while k < self.enves.len()
            invariant
                k <= self.enves@.len(),
                forall|j: int|
                    0 <= j < k ==> 0 <= (#[trigger] self.enves@[j]).smp <= 480_000 && 0
                        <= self.enves@[j].mag <= 100,
            decreases self.enves@.len() - k,
        {
            let enve = self.enves[k];
            if enve.smp < 0 || enve.smp > 480_000 || enve.mag < 0 || enve.mag > 100 {
                assert(!(0 <= self.enves@[k as int].smp <= 480_000 && 0 <= self.enves@[k as int].mag
                    <= 100));
                return false;
            }
            k = k + 1;
        }
        if self.enve_mag_start < 0 || self.enve_mag_start > 100 || self.enve_mag_margin < -100
            || self.enve_mag_margin > 100 {
            return false;
        }
        if self.enve_index < self.enves.len() {
            let smp = self.enves[self.enve_index].smp;
            if self.enve_count as i64 >= smp as i64 {
                return false;
            }
            let target = self.enve_mag_start + self.enve_mag_margin;
            if target < 0 || target > 100 {
                return false;
            }
        }
        let main_kind = match self.main.kind {
            OscillatorKind::Main => true,
            _ => false,
        };
        let freq_kind = match self.freq.kind {
            OscillatorKind::Freq => true,
            _ => false,
        };
        let volu_kind = match self.volu.kind {
            OscillatorKind::Volu => true,
            _ => false,
        };
        self.main.is_valid() && self.freq.is_valid() && self.volu.is_valid() && main_kind
            && freq_kind && volu_kind
    }

    /// The unit before its first sample, at `sps` samples per second. Its
    /// envelope has passed the breakpoints at time zero. An oscillator made
    /// of noise starts at its index into the noise sequence.
    pub fn new(
        unit: &NoiseUnit,
        sps: u32,
        main_index: usize,
        freq_index: usize,
        volu_index: usize,
        tables: &NoiseTables,
    ) -> (r: Self)
        requires
            unit@.wf(),
            is_rate(sps),
        ensures
            r.enable == unit.enable,
            r.pan@[0] == pan_gains(unit.pan).0,
            r.pan@[1] == pan_gains(unit.pan).1,
            r.enves@ == builder_points(unit.enves@, sps),
            r.envelope() == envelope_begin(r.enves@),
            r.main == oscillator_of(unit.main, OscillatorKind::Main, main_index, tables),
            r.freq == oscillator_of(unit.freq, OscillatorKind::Freq, freq_index, tables),
            r.volu == oscillator_of(unit.volu, OscillatorKind::Volu, volu_index, tables),
            r.wf(),
    {
        let enable = unit.enable;
        let pan: [i32; 2] = if unit.pan == 0 {
            [100, 100]
        } else if unit.pan < 0 {
            [100, 100 + unit.pan as i32]
        } else {
            [100 - unit.pan as i32, 100]
        };
        let mut enves: Vec<NoiseBuilderPoint> = Vec::new();
        let mut k: usize = 0;
        while k < unit.enves.len()
            invariant
                k <= unit.enves@.len(),
                unit@.wf(),
                is_rate(sps),
                enves@.len() == k,
                forall|j: int| 0 <= j < k ==> enves@[j] == builder_point(unit.enves@[j], sps),
                forall|j: int|
                    0 <= j < k ==> 0 <= (#[trigger] enves@[j]).smp <= 480_000 && 0 <= enves@[j].mag
                        <= 100,
            decreases unit.enves@.len() - k,
        {
            let enve = unit.enves[k];
            assert(0 <= enve.x <= 10000 && 0 <= enve.y <= 100) by {
                assert(unit@.enves[k as int] == enve);
            }
            assert(0 <= sps as i32 * enve.x <= 480_000_000) by (nonlinear_arith)
                requires
                    0 <= sps as i32 <= 48000,
                    0 <= enve.x <= 10000,
            ;
            enves.push(NoiseBuilderPoint { smp: (sps as i32) * enve.x / 1000, mag: enve.y });
            k = k + 1;
        }
        assert(enves@ =~= builder_points(unit.enves@, sps));
        let main = match &unit.main {
            Some(osc) => NoiseBuilderOscillator::new(osc, OscillatorKind::Main, main_index, tables),
            None => NoiseBuilderOscillator::empty(OscillatorKind::Main),
        };
        let freq = match &unit.freq {
            Some(osc) => NoiseBuilderOscillator::new(osc, OscillatorKind::Freq, freq_index, tables),
            None => NoiseBuilderOscillator::empty(OscillatorKind::Freq),
        };
        let volu = match &unit.volu {
            Some(osc) => NoiseBuilderOscillator::new(osc, OscillatorKind::Volu, volu_index, tables),
            None => NoiseBuilderOscillator::empty(OscillatorKind::Volu),
        };
        let (enve_index, enve_mag_start, enve_mag_margin) = settle(&enves, 0, 0);
        proof {
            lemma_settled_wf(enves@, envelope_start());
        }
        NoiseBuilderUnit {
            enable,
            pan,
            enves,
            enve_index,
            enve_mag_start,
            enve_mag_margin,
            enve_count: 0,
            main,
            freq,
            volu,
        }
    }

    /// Tells whether the unit gives both channels the same gain.
    pub fn is_centred(&self) -> (r: bool)
        ensures
            r == (self.pan@[0] == self.pan@[1]),
    {
        self.pan[0] == self.pan[1]
    }

    /// What the unit gives at the phase positions of its three oscillators.
    pub open spec fn sample_at(
        &self,
        main_at: int,
        freq_at: int,
        volu_at: int,
        tables: &NoiseTables,
    ) -> UnitSample {
        UnitSample {
            main: self.main.sample_at(main_at, tables) as i32,
            freq: self.freq.sample_at(freq_at, tables) as i32,
            volu: self.volu.sample_at(volu_at, tables) as i32,
            mag_start: self.enve_mag_start,
            ramp: if self.enve_index < self.enves@.len() {
                Some(
                    Ramp {
                        margin: self.enve_mag_margin,
                        count: self.enve_count,
                        smp: self.enves@[self.enve_index as int].smp,
                    },
                )
            } else {
                None
            },
        }
    }

    /// Gives what the unit holds for one sample, at the phase positions of its
    /// three oscillators, and moves the unit on by one sample: the envelope
    /// takes a step and the waves advance.
    ///
    /// A unit that is not heard gives nothing and stays as it is.
    pub fn get_sample(
        &mut self,
        main_at: i32,
        freq_at: i32,
        volu_at: i32,
        tables: &NoiseTables,
    ) -> (r: Option<UnitSample>)
        requires
            old(self).wf(),
            old(self).enable ==> old(self).main.in_cycle(main_at as int)
                && old(self).freq.in_cycle(freq_at as int)
                    && old(self).volu.in_cycle(volu_at as int),
        ensures
            final(self).wf(),
            final(self).enable == old(self).enable,
            final(self).pan == old(self).pan,
            final(self).enves@ == old(self).enves@,
            !old(self).enable ==> r is None && final(self).envelope() == old(self).envelope()
                && final(self).main == old(self).main && final(self).freq == old(self).freq
                && final(self).volu == old(self).volu,
            r is Some && r->Some_0.ramp is Some ==> 0 <= r->Some_0.ramp->Some_0.count
                < r->Some_0.ramp->Some_0.smp,
            old(self).enable ==> r == Some(
                old(self).sample_at(main_at as int, freq_at as int, volu_at as int, tables),
            ) && final(self).envelope() == envelope_step(old(self).enves@, old(self).envelope())
                && final(self).main == old(self).main.advanced(tables)
                    && final(self).freq == old(self).freq.advanced(tables)
                        && final(self).volu == old(self).volu.advanced(tables),
    {
        if !self.enable {
            return None;
        }
        let ramp = if self.enve_index < self.enves.len() {
            Some(
                Ramp {
                    margin: self.enve_mag_margin,
                    count: self.enve_count,
                    smp: self.enves[self.enve_index].smp,
                },
            )
        } else {
            None
        };
        let sample = UnitSample {
            main: self.main.get_sample(main_at, tables),
            freq: self.freq.get_sample(freq_at, tables),
            volu: self.volu.get_sample(volu_at, tables),
            mag_start: self.enve_mag_start,
            ramp,
        };
        self.main.increment(tables);
        self.freq.increment(tables);
        self.volu.increment(tables);
        proof {
            lemma_step_wf(self.enves@, self.envelope());
        }
        if self.enve_index < self.enves.len() {
            let count: u32 = self.enve_count + 1;
            let current = self.enves[self.enve_index];
            if count as i32 >= current.smp {
                let (index, start, margin) = settle(&self.enves, self.enve_index + 1, current.mag);
                self.enve_count = 0;
                self.enve_mag_start = start;
                self.enve_mag_margin = margin;
                self.enve_index = index;
            } else {
                self.enve_count = count;
            }
        }
        Some(sample)
    }
}


/// A unit whose envelope is one point at time zero and level zero is at
/// level zero throughout, at every rate: its breakpoints are one breakpoint
/// without length at level zero, and before the first sample and after any
/// number of samples the envelope rests behind it at level zero, so that
/// every sample is handed out without a ramp, at the level zero.
pub proof fn lemma_zero_point_unit_stays_zero(points: Seq<Point>, sps: u32, steps: nat)
    requires
        points == seq![Point { x: 0, y: 0 }],
    ensures
        builder_points(points, sps) == seq![NoiseBuilderPoint { smp: 0, mag: 0 }],
        envelope_after(builder_points(points, sps), steps) == (Envelope {
            index: 1,
            start: 0,
            margin: 0,
            count: 0,
        }),
{
    assert(builder_points(points, sps) =~= seq![NoiseBuilderPoint { smp: 0, mag: 0 }]);
    lemma_zero_envelope_stays_zero(builder_points(points, sps), steps);
}

/// The forms in which an instrument can be rendered: one or two channels, one
/// of the four rates, 8 or 16 bits.
pub open spec fn is_target(ch: u16, sps: u32, bps: u16) -> bool {
    (ch == 1 || ch == 2) && is_rate(sps) && (bps == 8 || bps == 16)
}

/// The frames that a duration of `smp_num_44k` samples at 44100 Hz takes at
/// `sps` samples per second, rounded down.
pub open spec fn frame_count(smp_num_44k: u32, sps: u32) -> int {
    smp_num_44k * sps / (BASIC_SPS as int)
}

/// A mixed amplitude cut to the range of a 16-bit sample.
pub open spec fn clamp_16(mixed: int) -> int {
    if mixed < i16::MIN {
        i16::MIN as int
    } else if mixed > i16::MAX {
        i16::MAX as int
    } else {
        mixed
    }
}

/// The bytes of the sample that a mixed amplitude becomes: cut to 16 bits,
/// then the two little-endian bytes of that, or for 8 bits its high byte
/// moved from around zero to around 128.
pub open spec fn sample_bytes(mixed: i32, bps: u16) -> Seq<u8> {
    let cut = clamp_16(mixed as int);
    if bps == 8 {
        seq![((cut + 0x8000) / 0x100) as u8]
    } else {
        let pattern = byte_order::as_unsigned_16(cut);
        seq![(pattern % 0x100) as u8, (pattern / 0x100) as u8]
    }
}

/// The bytes of the frame that the mixed amplitudes of its channels become.
pub open spec fn frame_bytes(mixed: Seq<i32>, bps: u16) -> Seq<u8>
    decreases mixed.len(),
{
    if mixed.len() == 0 {
        Seq::empty()
    } else {
        frame_bytes(mixed.drop_last(), bps) + sample_bytes(mixed.last(), bps)
    }
}

/// A pan at the centre gives both channels the same gain. The bytes of a
/// frame are those of its channels one after the other, so two channels that
/// are mixed to the same amplitude get the same bytes.
pub proof fn lemma_frame_channels(left: i32, right: i32, bps: u16)
    ensures
        pan_gains(0).0 == pan_gains(0).1,
        frame_bytes(seq![left], bps) == sample_bytes(left, bps),
        frame_bytes(seq![left, right], bps) == sample_bytes(left, bps) + sample_bytes(right, bps),
        left == right ==> frame_bytes(seq![left, right], bps).subrange(
            0,
            sample_bytes(left, bps).len() as int,
        ) == frame_bytes(seq![left, right], bps).subrange(
            sample_bytes(left, bps).len() as int,
            2 * sample_bytes(left, bps).len() as int,
        ),
{
    let one = seq![left];
    let two = seq![left, right];
    assert(one.drop_last() =~= Seq::<i32>::empty());
    assert(frame_bytes(one.drop_last(), bps) =~= Seq::<u8>::empty());
    assert(frame_bytes(one, bps) =~= sample_bytes(left, bps));
    assert(two.drop_last() =~= one);
    assert(frame_bytes(two, bps) =~= sample_bytes(left, bps) + sample_bytes(right, bps));
    if left == right {
        let width = sample_bytes(left, bps).len() as int;
        assert(frame_bytes(two, bps).subrange(0, width) =~= sample_bytes(left, bps));
        assert(frame_bytes(two, bps).subrange(width, 2 * width) =~= sample_bytes(right, bps));
    }
}

/// Whether every unit that is heard gives both channels the same gain.
pub open spec fn all_centred(units: Seq<NoiseBuilderUnit>) -> bool {
    forall|k: int|
        0 <= k < units.len() && (#[trigger] units[k]).enable ==> units[k].pan@[0]
            == units[k].pan@[1]
}

/// Tells whether every unit that is heard gives both channels the same gain:
/// then one mix serves both channels.
pub fn channels_alike(units: &Vec<NoiseBuilderUnit>) -> (r: bool)
    ensures
        r == all_centred(units@),
{
    let mut k: usize = 0;
    while k < units.len()
        invariant
            k <= units@.len(),
            forall|j: int|
                0 <= j < k && (#[trigger] units@[j]).enable ==> units@[j].pan@[0]
                    == units@[j].pan@[1],
        decreases units@.len() - k,
    {
        if units[k].enable && !units[k].is_centred() {
            return false;
        }
        k = k + 1;
    }
    true
}

/// A unit with its pan at the centre gives both channels the same gain, and
/// only such a unit does; and a frame whose channels all take one amplitude
/// holds the same bytes for each channel. So where every unit that is heard
/// has its pan at the centre, the frames that `write_alike` lays down are
/// the same in both channels.
pub proof fn lemma_centred_channels_alike(pan: i8, mixed: i32, bps: u16)
    requires
        -100 <= pan <= 100,
    ensures
        pan == 0 <==> pan_gains(pan).0 == pan_gains(pan).1,
        frame_bytes(seq![mixed, mixed], bps) == sample_bytes(mixed, bps) + sample_bytes(
            mixed,
            bps,
        ),
{
    lemma_frame_channels(mixed, mixed, bps);
}

/// The assembly of the output of one rendering: the form, the number of
/// frames that are due, and the bytes of the frames written so far.
pub struct NoiseBuilder {
    fmt: PcmWaveFormat,
    frames: u64,
    smp: Vec<u8>,
}

impl NoiseBuilder {
    /// The form of the output.
    pub closed spec fn format(&self) -> PcmWaveFormat {
        self.fmt
    }

    /// The number of frames that are due.
    pub closed spec fn frames(&self) -> int {
        self.frames as int
    }

    /// The bytes of the frames written so far.
    pub closed spec fn bytes(&self) -> Seq<u8> {
        self.smp@
    }

    /// The form is one that can be rendered, and what is written is whole
    /// frames, no more than are due.
    pub closed spec fn wf(&self) -> bool {
        &&& is_target(self.fmt.ch, self.fmt.sps, self.fmt.bps)
        &&& exists|written: int|
            0 <= written <= self.frames && self.smp@.len() == #[trigger] (written
                * self.fmt.frame_size())
    }

    /// Whether every frame that is due is written.
    pub open spec fn is_complete(&self) -> bool {
        self.bytes().len() == self.frames() * self.format().frame_size()
    }

    /// Starts the assembly of a rendering of `noise` in the form given.
    ///
    /// Fails where the form is none that can be rendered.
    pub fn build(noise: &Noise, ch: u16, sps: u32, bps: u16) -> (r: Result<Self, Error>)
        ensures
            !is_target(ch, sps, bps) ==> r == Err::<Self, Error>(Error::UnsupportedTarget),
            is_target(ch, sps, bps) ==> r is Ok && r->Ok_0.wf() && r->Ok_0.format() == (
            PcmWaveFormat { ch, sps, bps }) && r->Ok_0.frames() == frame_count(
                noise.smp_num_44k,
                sps,
            ) && r->Ok_0.bytes() == Seq::<u8>::empty(),
    {
        if !(ch == 1 || ch == 2) {
            return Err(Error::UnsupportedTarget);
        }
        if !(sps == 11025 || sps == 22050 || sps == 44100 || sps == 48000) {
            return Err(Error::UnsupportedTarget);
        }
        if !(bps == 8 || bps == 16) {
            return Err(Error::UnsupportedTarget);
        }
        assert(noise.smp_num_44k as u64 * sps as u64 <= 0xffff_ffff * 48000) by (nonlinear_arith)
            requires
                noise.smp_num_44k <= 0xffff_ffff,
                sps <= 48000,
        ;
        let frames: u64 = noise.smp_num_44k as u64 * sps as u64 / BASIC_SPS as u64;
        let builder = NoiseBuilder { fmt: PcmWaveFormat { ch, sps, bps }, frames, smp: Vec::new() };
        assert(builder.smp@.len() == 0 * builder.fmt.frame_size());
        Ok(builder)
    }

    /// The number of frames that are still to be written.
    pub fn remaining(&self) -> (r: u64)
        requires
            self.wf(),
        ensures
            r * self.format().frame_size() == self.frames() * self.format().frame_size()
                - self.bytes().len(),
            r == 0 <==> self.is_complete(),
    {
        let size: u64 = (self.fmt.ch * (self.fmt.bps / 8)) as u64;
        let written: u64 = self.smp.len() as u64 / size;
        proof {
            let w = choose|written: int|
                0 <= written <= self.frames && self.smp@.len() == #[trigger] (written
                    * self.fmt.frame_size());
            assert(w * size / (size as int) == w) by (nonlinear_arith)
                requires
                    size >= 1,
            ;
            assert((self.frames - w) * size == self.frames * size - w * size)
                by (nonlinear_arith);
            assert(self.frames - w == 0 <==> self.frames * size == w * size) by (nonlinear_arith)
                requires
                    size >= 1,
            ;
        }
        self.frames - written
    }

    /// Writes one frame: each mixed amplitude is cut to 16 bits and laid
    /// down in the form of the output, one channel after the other.
    ///
    /// Nothing is written, and `false` returned, where every frame that is
    /// due is written already, or where `mixed` has not one amplitude for
    /// each channel.
    pub fn write_frame(&mut self, mixed: &[i32]) -> (written: bool)
        requires
            old(self).wf(),
        ensures
            final(self).wf(),
            final(self).format() == old(self).format(),
            final(self).frames() == old(self).frames(),
            written == (!old(self).is_complete() && mixed@.len() == old(self).format().ch),
            written ==> final(self).bytes() == old(self).bytes() + frame_bytes(
                mixed@,
                old(self).format().bps,
            ),
            !written ==> final(self).bytes() == old(self).bytes(),
    {
        if mixed.len() != self.fmt.ch as usize || self.remaining() == 0 {
            return false;
        }
        let ghost before = self.smp@;
        let ghost w = choose|written: int|
            0 <= written <= self.frames && self.smp@.len() == #[trigger] (written
                * self.fmt.frame_size());
        let bps = self.fmt.bps;
        let mut i: usize = 0;
        while i < mixed.len()
            invariant
                i <= mixed@.len(),
                bps == self.fmt.bps,
                bps == 8 || bps == 16,
                self.fmt == old(self).fmt,
                self.frames == old(self).frames,
                self.smp@ == before + frame_bytes(mixed@.subrange(0, i as int), bps),
                self.smp@.len() == before.len() + i * (bps / 8),
            decreases mixed@.len() - i,
        {
            let amplitude = mixed[i];
            let cut: i16 = if amplitude < i16::MIN as i32 {
                i16::MIN
            } else if amplitude > i16::MAX as i32 {
                i16::MAX
            } else {
                amplitude as i16
            };
            proof {
                let upto = mixed@.subrange(0, i + 1);
                assert(upto.drop_last() =~= mixed@.subrange(0, i as int));
                assert(upto.last() == amplitude);
            }
            if bps == 8 {
                let byte = u8::from_i16(cut);
                self.smp.push(byte);
                assert(self.smp@ =~= before + frame_bytes(mixed@.subrange(0, i + 1), bps));
            } else {
                let pair = byte_order::i16_bytes(cut);
                self.smp.push(pair[0]);
                self.smp.push(pair[1]);
                assert(self.smp@ =~= before + frame_bytes(mixed@.subrange(0, i + 1), bps));
            }
            i = i + 1;
        }
        proof {
            assert(mixed@.subrange(0, i as int) =~= mixed@);
            let size = self.fmt.frame_size();
            assert(self.smp@.len() == (w + 1) * size) by (nonlinear_arith)
                requires
                    self.smp@.len() == before.len() + i * (bps / 8),
                    before.len() == w * size,
                    size == i * (bps / 8),
            ;
            assert(w + 1 <= self.frames) by (nonlinear_arith)
                requires
                    w <= self.frames,
                    before.len() == w * size,
                    before.len() != self.frames * size,
            ;
        }
        true
    }

    /// Writes one frame in which every channel takes the amplitude `mixed`:
    /// the bytes of all channels are the same.
    ///
    /// Nothing is written, and `false` returned, where every frame that is
    /// due is written already.
    pub fn write_alike(&mut self, mixed: i32) -> (written: bool)
        requires
            old(self).wf(),
        ensures
            final(self).wf(),
            final(self).format() == old(self).format(),
            final(self).frames() == old(self).frames(),
            written == !old(self).is_complete(),
            written && old(self).format().ch == 1 ==> final(self).bytes() == old(self).bytes()
                + sample_bytes(mixed, old(self).format().bps),
            written && old(self).format().ch == 2 ==> final(self).bytes() == old(self).bytes()
                + sample_bytes(mixed, old(self).format().bps) + sample_bytes(
                mixed,
                old(self).format().bps,
            ),
            !written ==> final(self).bytes() == old(self).bytes(),
    {
        proof {
            lemma_frame_channels(mixed, mixed, self.fmt.bps);
        }
        if self.fmt.ch == 1 {
            let frame: [i32; 1] = [mixed];
            assert(frame@ =~= seq![mixed]);
            self.write_frame(frame.as_slice())
        } else {
            let frame: [i32; 2] = [mixed, mixed];
            assert(frame@ =~= seq![mixed, mixed]);
            let ghost before = self.smp@;
            let written = self.write_frame(frame.as_slice());
            proof {
                let bps = self.fmt.bps;
                assert(before + (sample_bytes(mixed, bps) + sample_bytes(mixed, bps)) =~= before
                    + sample_bytes(mixed, bps) + sample_bytes(mixed, bps));
            }
            written
        }
    }

    /// Hands out the buffer, once every frame that is due is written;
    /// nothing before that.
    pub fn finish(self) -> (r: Option<Pcm>)
        requires
            self.wf(),
        ensures
            r is Some <==> self.is_complete(),
            r is Some ==> r->Some_0.fmt == self.format() && r->Some_0.smp@ == self.bytes()
                && r->Some_0.smp@.len() == self.frames() * self.format().ch * (
            self.format().bps / 8) && r->Some_0.wf(),
    {
        if self.remaining() != 0 {
            return None;
        }
        proof {
            let size = self.fmt.frame_size();
            assert(size == 1 || size == 2 || size == 4) by (nonlinear_arith)
                requires
                    size == self.fmt.ch * (self.fmt.bps as int / 8),
                    self.fmt.ch == 1 || self.fmt.ch == 2,
                    self.fmt.bps == 8 || self.fmt.bps == 16,
            ;
            assert(self.frames * size == self.frames * self.fmt.ch * (self.fmt.bps / 8))
                by (nonlinear_arith)
                requires
                    size == self.fmt.ch * (self.fmt.bps as int / 8),
            ;
            assert((self.frames * size) % size == 0) by (nonlinear_arith)
                requires
                    size >= 1,
            ;
            assert(self.fmt.sps * self.fmt.ch * self.fmt.bps <= 48000 * 2 * 16) by (nonlinear_arith)
                requires
                    self.fmt.sps <= 48000,
                    self.fmt.ch <= 2,
                    self.fmt.bps <= 16,
            ;
        }
        Some(Pcm { fmt: self.fmt, smp: self.smp })
    }
}

} // verus!
