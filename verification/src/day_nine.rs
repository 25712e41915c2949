//! Milk by the bucket: which answer a withdrawal gets, and into which unit
//! an amount is converted.

use vstd::prelude::*;

verus! {

/// Unit of an amount of milk. Litres are spelled one way beside gallons and
/// the other way beside pints.
#[derive(Clone, Copy, Debug, PartialEq, Eq, Structural)]
pub enum Unit {
    Liters,
    Gallons,
    Litres,
    Pints,
}

/// The unit that an amount in `unit` is converted into.
pub open spec fn counterpart(unit: Unit) -> Unit {
    match unit {
        Unit::Liters => Unit::Gallons,
        Unit::Gallons => Unit::Liters,
        Unit::Litres => Unit::Pints,
        Unit::Pints => Unit::Litres,
    }
}

/// An amount in `unit` is multiplied by the factor between the two units
/// of its pair; else it is divided by it.
pub open spec fn multiplies(unit: Unit) -> bool {
    unit == Unit::Liters || unit == Unit::Litres
}

impl Unit {
    /// The unit that an amount in this unit is converted into.
    pub fn converted(self) -> (unit: Unit)
        ensures
            unit == counterpart(self),
    {
        match self {
            Unit::Liters => Unit::Gallons,
            Unit::Gallons => Unit::Liters,
            Unit::Litres => Unit::Pints,
            Unit::Pints => Unit::Litres,
        }
    }

    /// Whether the conversion from this unit multiplies by the factor of
    /// its pair, rather than divides by it.
    pub fn is_multiplied(self) -> (yes: bool)
        ensures
            yes == multiplies(self),
    {
        match self {
            Unit::Liters | Unit::Litres => true,
            Unit::Gallons | Unit::Pints => false,
        }
    }
}

/// Converting twice leads back to the unit, and the way back divides where
/// the way there multiplied.
pub proof fn lemma_units_pair(unit: Unit)
    ensures
        counterpart(counterpart(unit)) == unit,
        counterpart(unit) != unit,
        multiplies(counterpart(unit)) == !multiplies(unit),
{
}

/// How a withdrawal is answered.
#[derive(Clone, Copy, Debug, PartialEq, Eq, Structural)]
pub enum Withdrawal {
    /// The bucket is empty.
    NoMilk,
    /// A conversion was announced, but no amount came with it.
    BadRequest,
    /// The amount that came with the request is converted.
    Convert,
    /// Milk is handed out without more ado.
    Withdrawn,
}

/// The answer to a withdrawal: an empty bucket refuses every request; a
/// request that announces JSON must bring an amount; any other is a plain
/// withdrawal.
pub open spec fn withdrawal(any_left: bool, json: bool, has_amount: bool) -> Withdrawal {
    if !any_left {
        Withdrawal::NoMilk
    } else if !json {
        Withdrawal::Withdrawn
    } else if has_amount {
        Withdrawal::Convert
    } else {
        Withdrawal::BadRequest
    }
}

/// Decides how a withdrawal is answered, given whether the bucket had milk
/// left, whether the request announced JSON and whether an amount could be
/// read from it.
pub fn milk(any_left: bool, json: bool, has_amount: bool) -> (reply: Withdrawal)
    ensures
        reply == withdrawal(any_left, json, has_amount),
{
    if !any_left {
        return Withdrawal::NoMilk;
    }
    if json {
        if has_amount {
            Withdrawal::Convert
        } else {
            Withdrawal::BadRequest
        }
    } else {
        Withdrawal::Withdrawn
    }
}

} // verus!
