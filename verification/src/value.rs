//! Exact amounts. A transfer moves whole base units, but a block reward is
//! halved up to 63 times and must lose nothing on the way, so what an output
//! holds and what a wallet owns is counted in base units and in dust: one
//! base unit is 2^63 dust.

use vstd::prelude::*;

verus! {

/// Dust in one base unit: 2^63.
pub const DUST_PER_UNIT: u64 = 0x8000_0000_0000_0000;

/// `units` base units and `dust` dust, counted in dust.
pub open spec fn in_dust(units: int, dust: int) -> int {
    units * 0x8000_0000_0000_0000 + dust
}

/// An exact amount: `units` base units and `dust` dust, the dust less than
/// one base unit. The units may be negative; the dust never is, so the
/// amount is never less than its units.
#[derive(Debug, Clone, Copy, PartialEq, Eq, Structural)]
pub struct Value {
    pub units: i128,
    pub dust: u64,
}

/// The whole base units in `dust` dust, rounded down.
pub open spec fn units_of(dust: int) -> int {
    dust / 0x8000_0000_0000_0000
}

/// The dust that is left of `dust` dust beside its whole base units.
pub open spec fn dust_of(dust: int) -> int {
    dust % 0x8000_0000_0000_0000
}

/// The exact amount of `dust` dust: the base units rounded down, and what
/// is left.
pub open spec fn value_of(dust: int) -> Value {
    Value { units: units_of(dust) as i128, dust: dust_of(dust) as u64 }
}

impl Value {
    /// Whether the dust is less than one base unit.
    pub open spec fn wf(self) -> bool {
        self.dust < 0x8000_0000_0000_0000
    }

    /// The amount in dust.
    pub open spec fn dust_total(self) -> int {
        in_dust(self.units as int, self.dust as int)
    }

    /// Nothing.
    pub fn zero() -> (value: Value)
        ensures
            value == (Value { units: 0, dust: 0 }),
            value.wf(),
            value.dust_total() == 0,
    {
        Value { units: 0, dust: 0 }
    }

    /// `units` whole base units.
    pub fn whole(units: i128) -> (value: Value)
        ensures
            value == (Value { units, dust: 0 }),
            value.wf(),
            value.dust_total() == in_dust(units as int, 0),
    {
        Value { units, dust: 0 }
    }

    /// Tests `wf`.
    pub fn is_valid(&self) -> (valid: bool)
        ensures
            valid == self.wf(),
    {
        self.dust < DUST_PER_UNIT
    }

    /// The amount with `units` base units and `dust` dust more.
    pub fn plus(self, units: i128, dust: u64) -> (sum: Value)
        requires
            self.wf(),
            dust < 0x8000_0000_0000_0000,
            i128::MIN <= self.units + units,
            self.units + units + 1 <= i128::MAX,
        ensures
            sum.wf(),
            sum.dust_total() == self.dust_total() + in_dust(units as int, dust as int),
            self.units + units <= sum.units <= self.units + units + 1,
    {
        let both: u64 = self.dust + dust;
        if both >= DUST_PER_UNIT {
            Value { units: self.units + units + 1, dust: both - DUST_PER_UNIT }
        } else {
            Value { units: self.units + units, dust: both }
        }
    }

    /// The amount with `units` whole base units less.
    pub fn less(self, units: i128) -> (rest: Value)
        requires
            self.wf(),
            i128::MIN <= self.units - units <= i128::MAX,
        ensures
            rest.wf(),
            rest == (Value { units: (self.units - units) as i128, dust: self.dust }),
            rest.dust_total() == self.dust_total() - in_dust(units as int, 0),
    {
        Value { units: self.units - units, dust: self.dust }
    }

    /// Half of the amount, where that loses nothing.
    pub fn halved(self) -> (half: Value)
        requires
            self.wf(),
            self.units >= 0,
            self.dust % 2 == 0,
        ensures
            half.wf(),
            2 * half.dust_total() == self.dust_total(),
            half.units == self.units / 2,
    {
        let carried: u64 = if self.units % 2 == 1 {
            0x4000_0000_0000_0000
        } else {
            0
        };
        Value { units: self.units / 2, dust: self.dust / 2 + carried }
    }

    /// Whether the amount is more than nothing.
    pub fn is_positive(&self) -> (yes: bool)
        ensures
            yes == (self.dust_total() > 0),
    {
        self.units > 0 || (self.units == 0 && self.dust > 0) || (self.units == -1 && self.dust
            > DUST_PER_UNIT)
    }

    /// Whether the amount is less than `units` whole base units.
    pub fn is_below(&self, units: i128) -> (yes: bool)
        ensures
            yes == (self.dust_total() < in_dust(units as int, 0)),
    {
        self.units < units && (self.units + 1 < units || self.dust < DUST_PER_UNIT)
    }

    /// Whether the amount is more than `units` whole base units.
    pub fn is_above(&self, units: i128) -> (yes: bool)
        ensures
            yes == (self.dust_total() > in_dust(units as int, 0)),
    {
        self.units > units || (self.units == units && self.dust > 0) || (self.units < units
            && self.units + 1 == units && self.dust > DUST_PER_UNIT)
    }
}

/// An exact amount is the exact amount of its dust: units and dust say the
/// same as the dust alone.
pub proof fn lemma_value_of(value: Value)
    requires
        value.wf(),
    ensures
        value_of(value.dust_total()) == value,
{
}

/// The exact amount of some dust holds that dust, where its base units fit.
pub proof fn lemma_value_holds(dust: int)
    requires
        i128::MIN <= units_of(dust) <= i128::MAX,
    ensures
        value_of(dust).wf(),
        value_of(dust).dust_total() == dust,
{
}

} // verus!
