//! The table that turns a key into a playback rate.
//!
//! The rates are single-precision numbers, kept here by their bit patterns:
//! this module finds the place of a key in the table and hands out what
//! stands there.

use vstd::prelude::*;

verus! {

/// What is added to a key before it is scaled.
pub const KEY_OFFSET: i32 = 0x6000;

/// The place in a table of `size` rates that the scaled addressing gives to
/// `key`: the key is raised by 0x6000, multiplied by the size of the table and
/// divided by 0x100, and what comes out is cut to the table.
pub open spec fn scaled_index(key: int, size: int) -> int {
    let raised = key + KEY_OFFSET;
    if raised <= 0 {
        0
    } else if raised * size / 0x100 >= size {
        size - 1
    } else {
        raised * size / 0x100
    }
}

/// The place in a table of `size` rates that the coarse addressing gives to
/// `key`: the key is shifted right by four bits, and what comes out is cut to
/// the table.
pub open spec fn coarse_index(key: int, size: int) -> int {
    if key < 0 {
        0
    } else if key / 16 >= size {
        size - 1
    } else {
        key / 16
    }
}

/// A table of playback rates.
pub struct Frequency {
    table: Vec<u32>,
}

impl Frequency {
    #[verifier::type_invariant]
    spec fn inv(self) -> bool {
        1 <= self.table@.len() <= i32::MAX
    }

    /// The rates, each by its single-precision pattern.
    pub closed spec fn rates(&self) -> Seq<u32> {
        self.table@
    }

    /// A table that holds `table`, where it has a rate and no more rates
    /// than a 32-bit index can reach.
    pub fn new(table: Vec<u32>) -> (r: Option<Self>)
        ensures
            r is Some <==> 1 <= table@.len() <= i32::MAX,
            r is Some ==> r->Some_0.rates() == table@,
    {
        if table.len() >= 1 && table.len() <= i32::MAX as usize {
            Some(Frequency { table })
        } else {
            None
        }
    }

    /// The number of rates.
    pub fn size(&self) -> (r: usize)
        ensures
            r == self.rates().len(),
            1 <= r <= i32::MAX,
    {
        proof {
            use_type_invariant(self);
        }
        self.table.len()
    }

    /// The rate that the scaled addressing gives to `key`.
    pub fn get(&self, key: i32) -> (r: u32)
        ensures
            0 <= scaled_index(key as int, self.rates().len() as int) < self.rates().len(),
            r == self.rates()[scaled_index(key as int, self.rates().len() as int)],
    {
        proof {
            use_type_invariant(self);
        }
        let size: i64 = self.table.len() as i64;
        let raised: i64 = key as i64 + KEY_OFFSET as i64;
        if raised <= 0 {
            return self.table[0];
        }
        assert(0 < raised * size <= 0x8000_6000 * 0x7fff_ffff) by (nonlinear_arith)
            requires
                0 < raised <= 0x8000_6000,
                1 <= size <= 0x7fff_ffff,
        ;
        let scaled: i64 = raised * size / 0x100;
        if scaled >= size {
            self.table[(size - 1) as usize]
        } else {
            self.table[scaled as usize]
        }
    }

    /// The rate that the coarse addressing gives to `key`.
    pub fn get2(&self, key: i32) -> (r: u32)
        ensures
            0 <= coarse_index(key as int, self.rates().len() as int) < self.rates().len(),
            r == self.rates()[coarse_index(key as int, self.rates().len() as int)],
    {
        proof {
            use_type_invariant(self);
        }
        let size: usize = self.table.len();
        if key < 0 {
            return self.table[0];
        }
        let shifted: usize = (key / 16) as usize;
        if shifted >= size {
            self.table[size - 1]
        } else {
            self.table[shifted]
        }
    }
}

} // verus!
