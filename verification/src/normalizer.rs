//! The normalizer's decision: which unit conversion applies between two
//! units. The arithmetic itself is floating-point and is applied outside.

use vstd::prelude::*;
use vstd::string::StringExecFns;
use crate::error::{ParallaxisError, Result};
use crate::protocol::{unit_debug, unit_text};
use crate::text::text_eq;
use crate::types::Unit;

verus! {

/// A conversion between units.
#[derive(Clone, Copy, Debug, PartialEq, Eq, Structural)]
pub enum Conversion {
    /// (x − 32) × 5/9 + 273.15
    FahrenheitToKelvin,
    /// x + 273.15
    CelsiusToKelvin,
    /// x − 273.15
    KelvinToCelsius,
    /// (x − 32) × 5/9
    FahrenheitToCelsius,
    /// x / 1000
    GramToKilogram,
    /// x × 1000
    KilogramToGram,
    /// x × 1000
    KilometerToMeter,
    /// x / 1000
    MeterToKilometer,
    /// x × 1 000 000
    SquareKilometerToSquareMeter,
    /// x / 1 000 000
    SquareMeterToSquareKilometer,
    /// x / 1000
    LiterToCubicMeter,
    /// x × 1000
    CubicMeterToLiter,
    /// x
    Identity,
}

/// `a` and `b` are the same unit.
pub open spec fn same_unit(a: Unit, b: Unit) -> bool {
    match (a, b) {
        (Unit::Currency(x), Unit::Currency(y)) => x@ == y@,
        (Unit::Custom(x), Unit::Custom(y)) => x@ == y@,
        (Unit::Currency(_), _) => false,
        (Unit::Custom(_), _) => false,
        _ => a == b,
    }
}

/// The conversion from `from` to `to`, if there is one.
pub open spec fn conversion_of(from: Unit, to: Unit) -> Option<Conversion> {
    match (from, to) {
        (Unit::Fahrenheit, Unit::Kelvin) => Some(Conversion::FahrenheitToKelvin),
        (Unit::Celsius, Unit::Kelvin) => Some(Conversion::CelsiusToKelvin),
        (Unit::Kelvin, Unit::Celsius) => Some(Conversion::KelvinToCelsius),
        (Unit::Fahrenheit, Unit::Celsius) => Some(Conversion::FahrenheitToCelsius),
        (Unit::Gram, Unit::Kilogram) => Some(Conversion::GramToKilogram),
        (Unit::Kilogram, Unit::Gram) => Some(Conversion::KilogramToGram),
        (Unit::Kilometer, Unit::Meter) => Some(Conversion::KilometerToMeter),
        (Unit::Meter, Unit::Kilometer) => Some(Conversion::MeterToKilometer),
        (Unit::SquareKilometer, Unit::SquareMeter) => Some(Conversion::SquareKilometerToSquareMeter),
        (Unit::SquareMeter, Unit::SquareKilometer) => Some(Conversion::SquareMeterToSquareKilometer),
        (Unit::Liter, Unit::CubicMeter) => Some(Conversion::LiterToCubicMeter),
        (Unit::CubicMeter, Unit::Liter) => Some(Conversion::CubicMeterToLiter),
        _ => if same_unit(from, to) {
            Some(Conversion::Identity)
        } else {
            None
        },
    }
}

/// Whether `a` and `b` are the same unit.
pub fn units_equal(a: &Unit, b: &Unit) -> (r: bool)
    ensures
        r == same_unit(*a, *b),
{
    match (a, b) {
        (Unit::Currency(x), Unit::Currency(y)) => text_eq(x.as_str(), y.as_str()),
        (Unit::Custom(x), Unit::Custom(y)) => text_eq(x.as_str(), y.as_str()),
        (Unit::Currency(_), _) => false,
        (Unit::Custom(_), _) => false,
        (Unit::Unitless, Unit::Unitless) => true,
        (Unit::Percent, Unit::Percent) => true,
        (Unit::Meter, Unit::Meter) => true,
        (Unit::Kilometer, Unit::Kilometer) => true,
        (Unit::Gram, Unit::Gram) => true,
        (Unit::Kilogram, Unit::Kilogram) => true,
        (Unit::Kelvin, Unit::Kelvin) => true,
        (Unit::Celsius, Unit::Celsius) => true,
        (Unit::Fahrenheit, Unit::Fahrenheit) => true,
        (Unit::Second, Unit::Second) => true,
        (Unit::Year, Unit::Year) => true,
        (Unit::SquareMeter, Unit::SquareMeter) => true,
        (Unit::SquareKilometer, Unit::SquareKilometer) => true,
        (Unit::Count, Unit::Count) => true,
        (Unit::MeterPerSecond, Unit::MeterPerSecond) => true,
        (Unit::Pascal, Unit::Pascal) => true,
        (Unit::Liter, Unit::Liter) => true,
        (Unit::CubicMeter, Unit::CubicMeter) => true,
        _ => false,
    }
}

/// The conversion that normalizes a number from `from` to `to`; an error
/// "Cannot convert {from:?} to {to:?}" when the units are not convertible.
pub fn conversion(from: &Unit, to: &Unit) -> (r: Result<Conversion>)
    ensures
        match conversion_of(*from, *to) {
            Some(c) => r == Ok::<Conversion, ParallaxisError>(c),
            None => r matches Err(ParallaxisError::Normalization(m)) && m@ == "Cannot convert "@
                + unit_debug(*from) + " to "@ + unit_debug(*to),
        },
{
    let c = match (from, to) {
        (Unit::Fahrenheit, Unit::Kelvin) => Conversion::FahrenheitToKelvin,
        (Unit::Celsius, Unit::Kelvin) => Conversion::CelsiusToKelvin,
        (Unit::Kelvin, Unit::Celsius) => Conversion::KelvinToCelsius,
        (Unit::Fahrenheit, Unit::Celsius) => Conversion::FahrenheitToCelsius,
        (Unit::Gram, Unit::Kilogram) => Conversion::GramToKilogram,
        (Unit::Kilogram, Unit::Gram) => Conversion::KilogramToGram,
        (Unit::Kilometer, Unit::Meter) => Conversion::KilometerToMeter,
        (Unit::Meter, Unit::Kilometer) => Conversion::MeterToKilometer,
        (Unit::SquareKilometer, Unit::SquareMeter) => Conversion::SquareKilometerToSquareMeter,
        (Unit::SquareMeter, Unit::SquareKilometer) => Conversion::SquareMeterToSquareKilometer,
        (Unit::Liter, Unit::CubicMeter) => Conversion::LiterToCubicMeter,
        (Unit::CubicMeter, Unit::Liter) => Conversion::CubicMeterToLiter,
        _ => {
            if units_equal(from, to) {
                Conversion::Identity
            } else {
                let mut m = String::from_str("Cannot convert ");
                m.append(unit_text(from).as_str());
                m.append(" to ");
                m.append(unit_text(to).as_str());
                return Err(ParallaxisError::Normalization(m));
            }
        },
    };
    Ok(c)
}

/// The unit that a conversion reads and the unit it gives, as its name
/// says; none for the identity.
pub open spec fn conversion_units(c: Conversion) -> Option<(Unit, Unit)> {
    match c {
        Conversion::FahrenheitToKelvin => Some((Unit::Fahrenheit, Unit::Kelvin)),
        Conversion::CelsiusToKelvin => Some((Unit::Celsius, Unit::Kelvin)),
        Conversion::KelvinToCelsius => Some((Unit::Kelvin, Unit::Celsius)),
        Conversion::FahrenheitToCelsius => Some((Unit::Fahrenheit, Unit::Celsius)),
        Conversion::GramToKilogram => Some((Unit::Gram, Unit::Kilogram)),
        Conversion::KilogramToGram => Some((Unit::Kilogram, Unit::Gram)),
        Conversion::KilometerToMeter => Some((Unit::Kilometer, Unit::Meter)),
        Conversion::MeterToKilometer => Some((Unit::Meter, Unit::Kilometer)),
        Conversion::SquareKilometerToSquareMeter => Some((Unit::SquareKilometer, Unit::SquareMeter)),
        Conversion::SquareMeterToSquareKilometer => Some((Unit::SquareMeter, Unit::SquareKilometer)),
        Conversion::LiterToCubicMeter => Some((Unit::Liter, Unit::CubicMeter)),
        Conversion::CubicMeterToLiter => Some((Unit::CubicMeter, Unit::Liter)),
        Conversion::Identity => None,
    }
}

/// The factor by which a scaling conversion multiplies, as a fraction
/// (numerator, denominator); none for the others.
pub open spec fn scale(c: Conversion) -> Option<(int, int)> {
    match c {
        Conversion::GramToKilogram => Some((1, 1000)),
        Conversion::KilogramToGram => Some((1000, 1)),
        Conversion::KilometerToMeter => Some((1000, 1)),
        Conversion::MeterToKilometer => Some((1, 1000)),
        Conversion::SquareKilometerToSquareMeter => Some((1000000, 1)),
        Conversion::SquareMeterToSquareKilometer => Some((1, 1000000)),
        Conversion::LiterToCubicMeter => Some((1, 1000)),
        Conversion::CubicMeterToLiter => Some((1000, 1)),
        Conversion::Identity => Some((1, 1)),
        _ => None,
    }
}

/// How many of the smallest unit of its kind a unit is: a kilometer is
/// 1000 meters, a kilogram 1000 grams, a square kilometer 1 000 000 square
/// meters, a cubic meter 1000 liters.
pub open spec fn unit_size(u: Unit) -> int {
    match u {
        Unit::Kilometer => 1000,
        Unit::Kilogram => 1000,
        Unit::SquareKilometer => 1000000,
        Unit::CubicMeter => 1000,
        _ => 1,
    }
}

/// A conversion goes from the unit asked for to the unit asked for, and a
/// scaling one keeps the quantity: x of `from` is x × factor of `to`, so
/// the size of `from` is the factor times the size of `to`.
pub proof fn lemma_conversion_direction(from: Unit, to: Unit)
    ensures
        conversion_of(from, to) matches Some(c) ==> match conversion_units(c) {
            Some((a, b)) => a == from && b == to,
            None => same_unit(from, to),
        },
        conversion_of(from, to) matches Some(c) ==> (scale(c) matches Some((n, d)) ==> unit_size(from) * d
            == unit_size(to) * n),
{
}

/// Every unit converts to itself, unchanged.
pub proof fn lemma_conversion_same_unit(u: Unit)
    ensures
        conversion_of(u, u) == Some(Conversion::Identity),
{
}

} // verus!
