//! The wave tables: one cycle of each fixed shape, and the noise sequence.
//!
//! A cycle has 441 samples, which is one period of 100 Hz at 44100 samples
//! per second. The shapes made of flat steps and the falling ramp are
//! computed here. The sine and the three shapes that are sums of harmonics or
//! interpolated between breakpoints need floating-point arithmetic: their
//! cycles are handed in. The noise sequence has 44100 samples and comes from
//! a fixed two-register recurrence.

use vstd::prelude::*;

verus! {

/// The samples in one cycle.
pub const SMP_NUM: usize = 441;

/// The samples in the noise sequence.
pub const SMP_NUM_RAND: usize = 44100;

/// Full scale.
pub const SAMPLING_TOP: i16 = 32767;

/// The first register of the noise recurrence at the start.
pub const RANDOM_SEED_0: u16 = 0x4444;

/// The second register of the noise recurrence at the start.
pub const RANDOM_SEED_1: u16 = 0x8888;

/// The value of a 16-bit pattern read as a two's-complement number.
pub open spec fn signed_16(bits: int) -> int {
    if bits < 0x8000 {
        bits
    } else {
        bits - 0x1_0000
    }
}

/// A 16-bit pattern with its two bytes exchanged.
pub open spec fn swapped_16(bits: int) -> int {
    bits % 0x100 * 0x100 + bits / 0x100
}

/// The two registers after `steps` steps of the recurrence. One step adds the
/// registers in 16 bits, exchanges the bytes of the sum, moves the first
/// register to the second and puts the exchanged sum in the first.
pub open spec fn random_registers(steps: nat) -> (int, int)
    decreases steps,
{
    if steps == 0 {
        (RANDOM_SEED_0 as int, RANDOM_SEED_1 as int)
    } else {
        let (reg0, reg1) = random_registers((steps - 1) as nat);
        (swapped_16((reg0 + reg1) % 0x1_0000), reg0)
    }
}

/// Sample `k` of the noise sequence: the first register after `k + 1` steps,
/// read as a two's-complement number.
pub open spec fn random_sample(k: int) -> int {
    signed_16(random_registers((k + 1) as nat).0)
}

/// Computes the noise sequence.
pub fn random_table() -> (table: Vec<i16>)
    ensures
        table@.len() == SMP_NUM_RAND,
        forall|k: int| 0 <= k < SMP_NUM_RAND ==> table@[k] as int == random_sample(k),
{
    let mut table: Vec<i16> = Vec::new();
    let mut reg0: u16 = RANDOM_SEED_0;
    let mut reg1: u16 = RANDOM_SEED_1;
    let mut s: usize = 0;
    while s < SMP_NUM_RAND
        invariant
            s <= SMP_NUM_RAND,
            table@.len() == s,
            (reg0 as int, reg1 as int) == random_registers(s as nat),
            forall|k: int| 0 <= k < s ==> table@[k] as int == random_sample(k),
        decreases SMP_NUM_RAND - s,
    {
        let sum: u32 = (reg0 as u32 + reg1 as u32) % 0x1_0000;
        let swapped: u32 = sum % 0x100 * 0x100 + sum / 0x100;
        let sample: i16 = if swapped < 0x8000 {
            swapped as i16
        } else {
            (swapped as i32 - 0x1_0000) as i16
        };
        reg1 = reg0;
        reg0 = swapped as u16;
        table.push(sample);
        s = s + 1;
    }
    table
}

/// The sample at `s` of the shape that holds each of `levels` for `width`
/// samples, one after the other, and the last of them to the end.
pub open spec fn step_sample(levels: Seq<i16>, width: int, s: int) -> i16 {
    if s / width < levels.len() - 1 {
        levels[s / width]
    } else {
        levels[levels.len() - 1]
    }
}

/// Computes one cycle of a shape made of flat steps.
pub fn step_table(levels: &[i16], width: usize) -> (table: Vec<i16>)
    requires
        levels@.len() >= 1,
        width >= 1,
    ensures
        table@.len() == SMP_NUM,
        forall|s: int| 0 <= s < SMP_NUM ==> table@[s] == step_sample(levels@, width as int, s),
{
    let mut table: Vec<i16> = Vec::new();
    let last = levels.len() - 1;
    let mut s: usize = 0;
    while s < SMP_NUM
        invariant
            s <= SMP_NUM,
            width >= 1,
            last == levels@.len() - 1,
            table@.len() == s,
            forall|k: int| 0 <= k < s ==> table@[k] == step_sample(levels@, width as int, k),
        decreases SMP_NUM - s,
    {
        let step = s / width;
        let level = if step < last {
            levels[step]
        } else {
            levels[last]
        };
        table.push(level);
        s = s + 1;
    }
    table
}

/// The sample at `s` of the falling ramp: from full scale down towards its
/// negative in 441 equal steps, rounded towards zero.
pub open spec fn saw_sample(s: int) -> int {
    let scaled = SAMPLING_TOP * SMP_NUM - 2 * SAMPLING_TOP * s;
    if scaled >= 0 {
        scaled / (SMP_NUM as int)
    } else {
        -((-scaled) / (SMP_NUM as int))
    }
}

/// Computes one cycle of the falling ramp.
pub fn saw_table() -> (table: Vec<i16>)
    ensures
        table@.len() == SMP_NUM,
        forall|s: int| 0 <= s < SMP_NUM ==> table@[s] as int == saw_sample(s),
{
    let mut table: Vec<i16> = Vec::new();
    let mut s: usize = 0;
    while s < SMP_NUM
        invariant
            s <= SMP_NUM,
            table@.len() == s,
            forall|k: int| 0 <= k < s ==> table@[k] as int == saw_sample(k),
        decreases SMP_NUM - s,
    {
        let scaled: i64 = 32767 * 441 - 65534 * (s as i64);
        let sample: i64 = if scaled >= 0 {
            scaled / 441
        } else {
            -((-scaled) / 441)
        };
        assert(-32767 <= sample <= 32767);
        table.push(sample as i16);
        s = s + 1;
    }
    table
}


/// The shapes that have a cycle.
#[derive(Clone, Copy, Debug, PartialEq, Eq, Structural)]
pub enum RawKind {
    Sine,
    Saw,
    Rect,
    Saw2,
    Rect2,
    Tri,
    Rect3,
    Rect4,
    Rect8,
    Rect16,
    Saw3,
    Saw4,
    Saw6,
    Saw8,
}

/// The number of shapes that have a cycle.
pub const RAW_KINDS: usize = 14;

impl RawKind {
    /// The place of the shape among the cycles.
    pub open spec fn index(self) -> int {
        match self {
            RawKind::Sine => 0,
            RawKind::Saw => 1,
            RawKind::Rect => 2,
            RawKind::Saw2 => 3,
            RawKind::Rect2 => 4,
            RawKind::Tri => 5,
            RawKind::Rect3 => 6,
            RawKind::Rect4 => 7,
            RawKind::Rect8 => 8,
            RawKind::Rect16 => 9,
            RawKind::Saw3 => 10,
            RawKind::Saw4 => 11,
            RawKind::Saw6 => 12,
            RawKind::Saw8 => 13,
        }
    }

    /// The place of the shape among the cycles.
    pub fn slot(&self) -> (r: usize)
        ensures
            r == self.index(),
            r < RAW_KINDS,
    {
        match self {
            RawKind::Sine => 0,
            RawKind::Saw => 1,
            RawKind::Rect => 2,
            RawKind::Saw2 => 3,
            RawKind::Rect2 => 4,
            RawKind::Tri => 5,
            RawKind::Rect3 => 6,
            RawKind::Rect4 => 7,
            RawKind::Rect8 => 8,
            RawKind::Rect16 => 9,
            RawKind::Saw3 => 10,
            RawKind::Saw4 => 11,
            RawKind::Saw6 => 12,
            RawKind::Saw8 => 13,
        }
    }
}

/// The part `numer / denom` of full scale, rounded down.
pub open spec fn part_of_top(numer: int, denom: int) -> int {
    SAMPLING_TOP * numer / denom
}

/// The levels of a shape made of flat steps, and for how many samples each
/// is held; nothing for the other shapes.
///
/// A rectangle with the number `n` is at full scale for the first `n`-th of
/// the cycle and at its negative for the rest. A saw with the number `n`
/// falls from full scale to its negative in `n` steps of one `n`-th of the
/// cycle each.
pub open spec fn steps_of(kind: RawKind) -> Option<(Seq<i16>, int)> {
    let top = SAMPLING_TOP;
    match kind {
        RawKind::Rect => Some((seq![top, (-top) as i16], (SMP_NUM / 2) as int)),
        RawKind::Rect3 => Some((seq![top, (-top) as i16], (SMP_NUM / 3) as int)),
        RawKind::Rect4 => Some((seq![top, (-top) as i16], (SMP_NUM / 4) as int)),
        RawKind::Rect8 => Some((seq![top, (-top) as i16], (SMP_NUM / 8) as int)),
        RawKind::Rect16 => Some((seq![top, (-top) as i16], (SMP_NUM / 16) as int)),
        RawKind::Saw3 => Some((seq![top, 0i16, (-top) as i16], (SMP_NUM / 3) as int)),
        RawKind::Saw4 => Some(
            (
                seq![
                    top,
                    part_of_top(1, 3) as i16,
                    (-part_of_top(1, 3)) as i16,
                    (-top) as i16,
                ],
                (SMP_NUM / 4) as int,
            ),
        ),
        RawKind::Saw6 => Some(
            (
                seq![
                    top,
                    (top - part_of_top(2, 5)) as i16,
                    part_of_top(1, 5) as i16,
                    (-part_of_top(1, 5)) as i16,
                    (-top + part_of_top(2, 5)) as i16,
                    (-top) as i16,
                ],
                (SMP_NUM / 6) as int,
            ),
        ),
        RawKind::Saw8 => Some(
            (
                seq![
                    top,
                    (top - part_of_top(2, 7)) as i16,
                    (top - part_of_top(4, 7)) as i16,
                    part_of_top(1, 7) as i16,
                    (-part_of_top(1, 7)) as i16,
                    (-top + part_of_top(4, 7)) as i16,
                    (-top + part_of_top(2, 7)) as i16,
                    (-top) as i16,
                ],
                (SMP_NUM / 8) as int,
            ),
        ),
        _ => None,
    }
}

/// Whether `cycle` is the cycle of `kind`, for the shapes whose cycle is
/// computed here. Of the other shapes it asks nothing but the length.
pub open spec fn is_cycle_of(kind: RawKind, cycle: Seq<i16>) -> bool {
    &&& cycle.len() == SMP_NUM
    &&& match steps_of(kind) {
        Some((levels, width)) => forall|s: int|
            0 <= s < SMP_NUM ==> cycle[s] == step_sample(levels, width, s),
        None => kind == RawKind::Saw ==> forall|s: int|
            0 <= s < SMP_NUM ==> cycle[s] as int == saw_sample(s),
    }
}

/// Whether `noise` is the noise sequence.
pub open spec fn is_noise(noise: Seq<i16>) -> bool {
    &&& noise.len() == SMP_NUM_RAND
    &&& forall|k: int| 0 <= k < SMP_NUM_RAND ==> noise[k] as int == random_sample(k)
}

fn part(numer: i32, denom: i32) -> (r: i16)
    requires
        1 <= numer <= denom <= 16,
    ensures
        r as int == part_of_top(numer as int, denom as int),
        0 <= r <= SAMPLING_TOP,
{
    let scaled: i32 = 32767 * numer;
    assert(0 <= scaled / denom <= 32767) by (nonlinear_arith)
        requires
            1 <= numer <= denom,
            scaled == 32767 * numer,
    ;
    (scaled / denom) as i16
}

/// Computes the cycle of a shape made of flat steps.
pub fn stepped_cycle(kind: RawKind) -> (cycle: Vec<i16>)
    requires
        steps_of(kind) is Some,
    ensures
        is_cycle_of(kind, cycle@),
{
    let top = SAMPLING_TOP;
    match kind {
        RawKind::Rect => step_table(&[top, -top], SMP_NUM / 2),
        RawKind::Rect3 => step_table(&[top, -top], SMP_NUM / 3),
        RawKind::Rect4 => step_table(&[top, -top], SMP_NUM / 4),
        RawKind::Rect8 => step_table(&[top, -top], SMP_NUM / 8),
        RawKind::Rect16 => step_table(&[top, -top], SMP_NUM / 16),
        RawKind::Saw3 => step_table(&[top, 0, -top], SMP_NUM / 3),
        RawKind::Saw4 => step_table(&[top, part(1, 3), -part(1, 3), -top], SMP_NUM / 4),
        RawKind::Saw6 => step_table(
            &[top, top - part(2, 5), part(1, 5), -part(1, 5), -top + part(2, 5), -top],
            SMP_NUM / 6,
        ),
        RawKind::Saw8 => step_table(
            &[
                top,
                top - part(2, 7),
                top - part(4, 7),
                part(1, 7),
                -part(1, 7),
                -top + part(4, 7),
                -top + part(2, 7),
                -top,
            ],
            SMP_NUM / 8,
        ),
        _ => Vec::new(),
    }
}


/// The cycles of all shapes and the noise sequence.
pub struct NoiseTables {
    raw: Vec<Vec<i16>>,
    random: Vec<i16>,
}

impl NoiseTables {
    #[verifier::type_invariant]
    spec fn inv(self) -> bool {
        &&& self.raw@.len() == RAW_KINDS
        &&& forall|k: int| 0 <= k < RAW_KINDS ==> (#[trigger] self.raw@[k])@.len() == SMP_NUM
        &&& self.random@.len() == SMP_NUM_RAND
    }

    /// The cycle of `kind`.
    pub closed spec fn cycle(&self, kind: RawKind) -> Seq<i16> {
        self.raw@[kind.index()]@
    }

    /// The noise sequence.
    pub closed spec fn noise(&self) -> Seq<i16> {
        self.random@
    }

    /// Every cycle that is computed here is the cycle of its shape, and the
    /// noise sequence is the one that the recurrence gives.
    pub open spec fn wf(&self) -> bool {
        &&& forall|kind: RawKind| is_cycle_of(kind, #[trigger] self.cycle(kind))
        &&& is_noise(self.noise())
    }

    /// Puts the tables together: the four cycles that are handed in, and
    /// beside them the cycles and the noise sequence that are computed here.
    ///
    /// There are no tables where one of the four has not the length of a
    /// cycle.
    pub fn new(sine: Vec<i16>, saw2: Vec<i16>, rect2: Vec<i16>, tri: Vec<i16>) -> (r: Option<Self>)
        ensures
            r is Some <==> sine@.len() == SMP_NUM && saw2@.len() == SMP_NUM && rect2@.len()
                == SMP_NUM && tri@.len() == SMP_NUM,
            r is Some ==> {
                let tables = r->Some_0;
                &&& tables.wf()
                &&& tables.cycle(RawKind::Sine) == sine@
                &&& tables.cycle(RawKind::Saw2) == saw2@
                &&& tables.cycle(RawKind::Rect2) == rect2@
                &&& tables.cycle(RawKind::Tri) == tri@
            },
    {
        if sine.len() != SMP_NUM || saw2.len() != SMP_NUM || rect2.len() != SMP_NUM || tri.len()
            != SMP_NUM {
            return None;
        }
        let mut raw: Vec<Vec<i16>> = Vec::new();
        raw.push(sine);
        raw.push(saw_table());
        raw.push(stepped_cycle(RawKind::Rect));
        raw.push(saw2);
        raw.push(rect2);
        raw.push(tri);
        raw.push(stepped_cycle(RawKind::Rect3));
        raw.push(stepped_cycle(RawKind::Rect4));
        raw.push(stepped_cycle(RawKind::Rect8));
        raw.push(stepped_cycle(RawKind::Rect16));
        raw.push(stepped_cycle(RawKind::Saw3));
        raw.push(stepped_cycle(RawKind::Saw4));
        raw.push(stepped_cycle(RawKind::Saw6));
        raw.push(stepped_cycle(RawKind::Saw8));
        let random = random_table();
        let tables = NoiseTables { raw, random };
        assert forall|kind: RawKind| is_cycle_of(kind, #[trigger] tables.cycle(kind)) by {
            assert(tables.cycle(kind) == tables.raw@[kind.index()]@);
        }
        Some(tables)
    }

    /// The sample at `offset` of the cycle of `kind`.
    pub fn sample(&self, kind: RawKind, offset: usize) -> (r: i16)
        requires
            offset < SMP_NUM,
        ensures
            r == self.cycle(kind)[offset as int],
    {
        proof {
            use_type_invariant(self);
        }
        let slot = kind.slot();
        self.raw[slot][offset]
    }

    /// The sample at `index` of the noise sequence.
    pub fn random(&self, index: usize) -> (r: i16)
        requires
            index < SMP_NUM_RAND,
        ensures
            r == self.noise()[index as int],
    {
        proof {
            use_type_invariant(self);
        }
        self.random[index]
    }
}

/// Tables that are put together from the same four cycles are the same: in
/// every cycle and in the noise sequence.
pub proof fn lemma_tables_are_determined(a: NoiseTables, b: NoiseTables)
    requires
        a.wf(),
        b.wf(),
        a.cycle(RawKind::Sine) == b.cycle(RawKind::Sine),
        a.cycle(RawKind::Saw2) == b.cycle(RawKind::Saw2),
        a.cycle(RawKind::Rect2) == b.cycle(RawKind::Rect2),
        a.cycle(RawKind::Tri) == b.cycle(RawKind::Tri),
    ensures
        forall|kind: RawKind| a.cycle(kind) == b.cycle(kind),
        a.noise() == b.noise(),
{
    assert forall|kind: RawKind| a.cycle(kind) == b.cycle(kind) by {
        let x = a.cycle(kind);
        let y = b.cycle(kind);
        assert(is_cycle_of(kind, x));
        assert(is_cycle_of(kind, y));
        if steps_of(kind) is Some {
            let (levels, width) = steps_of(kind)->Some_0;
            assert forall|s: int| 0 <= s < SMP_NUM implies x[s] == y[s] by {
                assert(x[s] == step_sample(levels, width, s));
                assert(y[s] == step_sample(levels, width, s));
            }
            assert(x =~= y);
        } else if kind == RawKind::Saw {
            assert forall|s: int| 0 <= s < SMP_NUM implies x[s] == y[s] by {
                assert(x[s] as int == saw_sample(s));
                assert(y[s] as int == saw_sample(s));
            }
            assert(x =~= y);
        }
    }
    assert forall|k: int| 0 <= k < SMP_NUM_RAND implies a.noise()[k] == b.noise()[k] by {
        assert(a.noise()[k] as int == random_sample(k));
        assert(b.noise()[k] as int == random_sample(k));
    }
    assert(a.noise() =~= b.noise());
}

} // verus!
