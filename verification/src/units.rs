//! Physical units: recognition by name, categories, display names and the
//! unit-level part of conversions (the arithmetic itself is done on floats
//! outside this crate).
use vstd::prelude::*;
use crate::error::CalcError;
use crate::text::{concat_str, str_eq};

verus! {

/// A unit attached to a value.
#[derive(Debug, Clone, PartialEq)]
pub enum Unit {
    Meter,
    Kilometer,
    Centimeter,
    Millimeter,
    Inch,
    Foot,
    Yard,
    Mile,
    Kilogram,
    Gram,
    Milligram,
    Pound,
    Ounce,
    Celsius,
    Fahrenheit,
    Kelvin,
    Byte,
    Kilobyte,
    Megabyte,
    Gigabyte,
    Terabyte,
    Second,
    Minute,
    Hour,
    Day,
    /// A unit named by the user that no table knows.
    Custom(String),
}

/// The mathematical content of a `Unit`.
pub enum UnitV {
    Meter,
    Kilometer,
    Centimeter,
    Millimeter,
    Inch,
    Foot,
    Yard,
    Mile,
    Kilogram,
    Gram,
    Milligram,
    Pound,
    Ounce,
    Celsius,
    Fahrenheit,
    Kelvin,
    Byte,
    Kilobyte,
    Megabyte,
    Gigabyte,
    Terabyte,
    Second,
    Minute,
    Hour,
    Day,
    Custom(Seq<char>),
}

/// The physical dimension of a unit; conversions stay inside one category.
#[derive(Debug, Clone, Copy, PartialEq, Eq, Structural)]
pub enum UnitCategory {
    Length,
    Mass,
    Temperature,
    Data,
    Time,
    Custom,
}

/// How a conversion between two units of one category is carried out.
#[derive(Debug, Clone, Copy, PartialEq, Eq, Structural)]
pub enum ConversionPlan {
    /// The units are the same: the value is unchanged.
    Identity,
    /// Temperature scales: through Kelvin with offsets.
    Temperature,
    /// Through the category's base unit by scale factors.
    ViaBase,
}

impl View for Unit {
    type V = UnitV;

    open spec fn view(&self) -> UnitV {
        match self {
            Unit::Meter => UnitV::Meter,
            Unit::Kilometer => UnitV::Kilometer,
            Unit::Centimeter => UnitV::Centimeter,
            Unit::Millimeter => UnitV::Millimeter,
            Unit::Inch => UnitV::Inch,
            Unit::Foot => UnitV::Foot,
            Unit::Yard => UnitV::Yard,
            Unit::Mile => UnitV::Mile,
            Unit::Kilogram => UnitV::Kilogram,
            Unit::Gram => UnitV::Gram,
            Unit::Milligram => UnitV::Milligram,
            Unit::Pound => UnitV::Pound,
            Unit::Ounce => UnitV::Ounce,
            Unit::Celsius => UnitV::Celsius,
            Unit::Fahrenheit => UnitV::Fahrenheit,
            Unit::Kelvin => UnitV::Kelvin,
            Unit::Byte => UnitV::Byte,
            Unit::Kilobyte => UnitV::Kilobyte,
            Unit::Megabyte => UnitV::Megabyte,
            Unit::Gigabyte => UnitV::Gigabyte,
            Unit::Terabyte => UnitV::Terabyte,
            Unit::Second => UnitV::Second,
            Unit::Minute => UnitV::Minute,
            Unit::Hour => UnitV::Hour,
            Unit::Day => UnitV::Day,
            Unit::Custom(s) => UnitV::Custom(s@),
        }
    }
}

impl UnitV {
    /// The category of the unit.
    pub open spec fn category(self) -> UnitCategory {
        match self {
            UnitV::Meter => UnitCategory::Length,
            UnitV::Kilometer => UnitCategory::Length,
            UnitV::Centimeter => UnitCategory::Length,
            UnitV::Millimeter => UnitCategory::Length,
            UnitV::Inch => UnitCategory::Length,
            UnitV::Foot => UnitCategory::Length,
            UnitV::Yard => UnitCategory::Length,
            UnitV::Mile => UnitCategory::Length,
            UnitV::Kilogram => UnitCategory::Mass,
            UnitV::Gram => UnitCategory::Mass,
            UnitV::Milligram => UnitCategory::Mass,
            UnitV::Pound => UnitCategory::Mass,
            UnitV::Ounce => UnitCategory::Mass,
            UnitV::Celsius => UnitCategory::Temperature,
            UnitV::Fahrenheit => UnitCategory::Temperature,
            UnitV::Kelvin => UnitCategory::Temperature,
            UnitV::Byte => UnitCategory::Data,
            UnitV::Kilobyte => UnitCategory::Data,
            UnitV::Megabyte => UnitCategory::Data,
            UnitV::Gigabyte => UnitCategory::Data,
            UnitV::Terabyte => UnitCategory::Data,
            UnitV::Second => UnitCategory::Time,
            UnitV::Minute => UnitCategory::Time,
            UnitV::Hour => UnitCategory::Time,
            UnitV::Day => UnitCategory::Time,
            UnitV::Custom(_) => UnitCategory::Custom,
        }
    }

    /// The short name under which the unit is displayed.
    pub open spec fn name(self) -> Seq<char> {
        match self {
            UnitV::Meter => "m"@,
            UnitV::Kilometer => "km"@,
            UnitV::Centimeter => "cm"@,
            UnitV::Millimeter => "mm"@,
            UnitV::Inch => "in"@,
            UnitV::Foot => "ft"@,
            UnitV::Yard => "yd"@,
            UnitV::Mile => "mi"@,
            UnitV::Kilogram => "kg"@,
            UnitV::Gram => "g"@,
            UnitV::Milligram => "mg"@,
            UnitV::Pound => "lb"@,
            UnitV::Ounce => "oz"@,
            UnitV::Celsius => "°C"@,
            UnitV::Fahrenheit => "°F"@,
            UnitV::Kelvin => "K"@,
            UnitV::Byte => "B"@,
            UnitV::Kilobyte => "KB"@,
            UnitV::Megabyte => "MB"@,
            UnitV::Gigabyte => "GB"@,
            UnitV::Terabyte => "TB"@,
            UnitV::Second => "s"@,
            UnitV::Minute => "min"@,
            UnitV::Hour => "h"@,
            UnitV::Day => "d"@,
            UnitV::Custom(s) => s,
        }
    }
}

/// The unit that the name `s` denotes, if any (several spellings per unit,
/// case-sensitive).
pub open spec fn unit_named(s: Seq<char>) -> Option<UnitV> {
    if s == "m"@ || s == "meter"@ || s == "meters"@ {
        Some(UnitV::Meter)
    } else if s == "km"@ || s == "kilometer"@ || s == "kilometers"@ || s == "kilometre"@ || s == "kilometres"@ {
        Some(UnitV::Kilometer)
    } else if s == "cm"@ || s == "centimeter"@ || s == "centimeters"@ || s == "centimetre"@ || s == "centimetres"@ {
        Some(UnitV::Centimeter)
    } else if s == "mm"@ || s == "millimeter"@ || s == "millimeters"@ || s == "millimetre"@ || s == "millimetres"@ {
        Some(UnitV::Millimeter)
    } else if s == "in"@ || s == "inch"@ || s == "inches"@ {
        Some(UnitV::Inch)
    } else if s == "ft"@ || s == "foot"@ || s == "feet"@ {
        Some(UnitV::Foot)
    } else if s == "yd"@ || s == "yard"@ || s == "yards"@ {
        Some(UnitV::Yard)
    } else if s == "mi"@ || s == "mile"@ || s == "miles"@ {
        Some(UnitV::Mile)
    } else if s == "kg"@ || s == "kilogram"@ || s == "kilograms"@ {
        Some(UnitV::Kilogram)
    } else if s == "g"@ || s == "gram"@ || s == "grams"@ {
        Some(UnitV::Gram)
    } else if s == "mg"@ || s == "milligram"@ || s == "milligrams"@ {
        Some(UnitV::Milligram)
    } else if s == "lb"@ || s == "lbs"@ || s == "pound"@ || s == "pounds"@ {
        Some(UnitV::Pound)
    } else if s == "oz"@ || s == "ounce"@ || s == "ounces"@ {
        Some(UnitV::Ounce)
    } else if s == "C"@ || s == "°C"@ || s == "celsius"@ || s == "Celsius"@ {
        Some(UnitV::Celsius)
    } else if s == "F"@ || s == "°F"@ || s == "fahrenheit"@ || s == "Fahrenheit"@ {
        Some(UnitV::Fahrenheit)
    } else if s == "K"@ || s == "kelvin"@ || s == "Kelvin"@ {
        Some(UnitV::Kelvin)
    } else if s == "B"@ || s == "byte"@ || s == "bytes"@ {
        Some(UnitV::Byte)
    } else if s == "KB"@ || s == "kilobyte"@ || s == "kilobytes"@ {
        Some(UnitV::Kilobyte)
    } else if s == "MB"@ || s == "megabyte"@ || s == "megabytes"@ {
        Some(UnitV::Megabyte)
    } else if s == "GB"@ || s == "gigabyte"@ || s == "gigabytes"@ {
        Some(UnitV::Gigabyte)
    } else if s == "TB"@ || s == "terabyte"@ || s == "terabytes"@ {
        Some(UnitV::Terabyte)
    } else if s == "s"@ || s == "sec"@ || s == "secs"@ || s == "second"@ || s == "seconds"@ {
        Some(UnitV::Second)
    } else if s == "min"@ || s == "mins"@ || s == "minute"@ || s == "minutes"@ {
        Some(UnitV::Minute)
    } else if s == "h"@ || s == "hr"@ || s == "hrs"@ || s == "hour"@ || s == "hours"@ {
        Some(UnitV::Hour)
    } else if s == "d"@ || s == "day"@ || s == "days"@ {
        Some(UnitV::Day)
    } else {
        None
    }
}


/// The unit table of the documentation, one row per kind of quantity:
/// length, mass, temperature, data, time.
pub open spec fn documented_rows() -> Seq<Seq<UnitV>> {
    seq![
        seq![
            UnitV::Meter,
            UnitV::Kilometer,
            UnitV::Centimeter,
            UnitV::Millimeter,
            UnitV::Inch,
            UnitV::Foot,
            UnitV::Yard,
            UnitV::Mile,
        ],
        seq![UnitV::Kilogram, UnitV::Gram, UnitV::Milligram, UnitV::Pound, UnitV::Ounce],
        seq![UnitV::Celsius, UnitV::Fahrenheit, UnitV::Kelvin],
        seq![UnitV::Byte, UnitV::Kilobyte, UnitV::Megabyte, UnitV::Gigabyte, UnitV::Terabyte],
        seq![UnitV::Second, UnitV::Minute, UnitV::Hour, UnitV::Day],
    ]
}

/// Units convert into each other exactly when they stand in the same row
/// of the documented table: within a row the conversion is planned (through
/// the temperature formulas for temperatures, through the row's base unit
/// otherwise), across rows it is refused.
pub proof fn law_conversions_follow_the_table(i: int, a: int, j: int, b: int)
    requires
        0 <= i < documented_rows().len(),
        0 <= a < documented_rows()[i].len(),
        0 <= j < documented_rows().len(),
        0 <= b < documented_rows()[j].len(),
    ensures
        ({
            let u = documented_rows()[i][a];
            let v = documented_rows()[j][b];
            &&& conversion_outcome(u, v) is Ok <==> i == j
            &&& (i == j && u != v) ==> conversion_outcome(u, v) == if i == 2 {
                Ok::<ConversionPlan, Seq<char>>(ConversionPlan::Temperature)
            } else {
                Ok::<ConversionPlan, Seq<char>>(ConversionPlan::ViaBase)
            }
        }),
{
    let rows = documented_rows();
    assert(rows[0].len() == 8);
    assert(rows[1].len() == 5);
    assert(rows[2].len() == 3);
    assert(rows[3].len() == 5);
    assert(rows[4].len() == 4);
}

/// The lengths of the unit names.
proof fn lemma_unit_name_lengths()
    ensures
        "m"@.len() == 1,
        "meter"@.len() == 5,
        "meters"@.len() == 6,
        "km"@.len() == 2,
        "kilometer"@.len() == 9,
        "kilometers"@.len() == 10,
        "kilometre"@.len() == 9,
        "kilometres"@.len() == 10,
        "cm"@.len() == 2,
        "centimeter"@.len() == 10,
        "centimeters"@.len() == 11,
        "centimetre"@.len() == 10,
        "centimetres"@.len() == 11,
        "mm"@.len() == 2,
        "millimeter"@.len() == 10,
        "millimeters"@.len() == 11,
        "millimetre"@.len() == 10,
        "millimetres"@.len() == 11,
        "in"@.len() == 2,
        "inch"@.len() == 4,
        "inches"@.len() == 6,
        "ft"@.len() == 2,
        "foot"@.len() == 4,
        "feet"@.len() == 4,
        "yd"@.len() == 2,
        "yard"@.len() == 4,
        "yards"@.len() == 5,
        "mi"@.len() == 2,
        "mile"@.len() == 4,
        "miles"@.len() == 5,
        "kg"@.len() == 2,
        "kilogram"@.len() == 8,
        "kilograms"@.len() == 9,
        "g"@.len() == 1,
        "gram"@.len() == 4,
        "grams"@.len() == 5,
        "mg"@.len() == 2,
        "milligram"@.len() == 9,
        "milligrams"@.len() == 10,
        "lb"@.len() == 2,
        "lbs"@.len() == 3,
        "pound"@.len() == 5,
        "pounds"@.len() == 6,
        "oz"@.len() == 2,
        "ounce"@.len() == 5,
        "ounces"@.len() == 6,
        "C"@.len() == 1,
        "°C"@.len() == 2,
        "celsius"@.len() == 7,
        "Celsius"@.len() == 7,
        "F"@.len() == 1,
        "°F"@.len() == 2,
        "fahrenheit"@.len() == 10,
        "Fahrenheit"@.len() == 10,
        "K"@.len() == 1,
        "kelvin"@.len() == 6,
        "Kelvin"@.len() == 6,
        "B"@.len() == 1,
        "byte"@.len() == 4,
        "bytes"@.len() == 5,
        "KB"@.len() == 2,
        "kilobyte"@.len() == 8,
        "kilobytes"@.len() == 9,
        "MB"@.len() == 2,
        "megabyte"@.len() == 8,
        "megabytes"@.len() == 9,
        "GB"@.len() == 2,
        "gigabyte"@.len() == 8,
        "gigabytes"@.len() == 9,
        "TB"@.len() == 2,
        "terabyte"@.len() == 8,
        "terabytes"@.len() == 9,
        "s"@.len() == 1,
        "sec"@.len() == 3,
        "secs"@.len() == 4,
        "second"@.len() == 6,
        "seconds"@.len() == 7,
        "min"@.len() == 3,
        "mins"@.len() == 4,
        "minute"@.len() == 6,
        "minutes"@.len() == 7,
        "h"@.len() == 1,
        "hr"@.len() == 2,
        "hrs"@.len() == 3,
        "hour"@.len() == 4,
        "hours"@.len() == 5,
        "d"@.len() == 1,
        "day"@.len() == 3,
        "days"@.len() == 4,
{
    reveal_strlit("m");
    reveal_strlit("meter");
    reveal_strlit("meters");
    reveal_strlit("km");
    reveal_strlit("kilometer");
    reveal_strlit("kilometers");
    reveal_strlit("kilometre");
    reveal_strlit("kilometres");
    reveal_strlit("cm");
    reveal_strlit("centimeter");
    reveal_strlit("centimeters");
    reveal_strlit("centimetre");
    reveal_strlit("centimetres");
    reveal_strlit("mm");
    reveal_strlit("millimeter");
    reveal_strlit("millimeters");
    reveal_strlit("millimetre");
    reveal_strlit("millimetres");
    reveal_strlit("in");
    reveal_strlit("inch");
    reveal_strlit("inches");
    reveal_strlit("ft");
    reveal_strlit("foot");
    reveal_strlit("feet");
    reveal_strlit("yd");
    reveal_strlit("yard");
    reveal_strlit("yards");
    reveal_strlit("mi");
    reveal_strlit("mile");
    reveal_strlit("miles");
    reveal_strlit("kg");
    reveal_strlit("kilogram");
    reveal_strlit("kilograms");
    reveal_strlit("g");
    reveal_strlit("gram");
    reveal_strlit("grams");
    reveal_strlit("mg");
    reveal_strlit("milligram");
    reveal_strlit("milligrams");
    reveal_strlit("lb");
    reveal_strlit("lbs");
    reveal_strlit("pound");
    reveal_strlit("pounds");
    reveal_strlit("oz");
    reveal_strlit("ounce");
    reveal_strlit("ounces");
    reveal_strlit("C");
    reveal_strlit("°C");
    reveal_strlit("celsius");
    reveal_strlit("Celsius");
    reveal_strlit("F");
    reveal_strlit("°F");
    reveal_strlit("fahrenheit");
    reveal_strlit("Fahrenheit");
    reveal_strlit("K");
    reveal_strlit("kelvin");
    reveal_strlit("Kelvin");
    reveal_strlit("B");
    reveal_strlit("byte");
    reveal_strlit("bytes");
    reveal_strlit("KB");
    reveal_strlit("kilobyte");
    reveal_strlit("kilobytes");
    reveal_strlit("MB");
    reveal_strlit("megabyte");
    reveal_strlit("megabytes");
    reveal_strlit("GB");
    reveal_strlit("gigabyte");
    reveal_strlit("gigabytes");
    reveal_strlit("TB");
    reveal_strlit("terabyte");
    reveal_strlit("terabytes");
    reveal_strlit("s");
    reveal_strlit("sec");
    reveal_strlit("secs");
    reveal_strlit("second");
    reveal_strlit("seconds");
    reveal_strlit("min");
    reveal_strlit("mins");
    reveal_strlit("minute");
    reveal_strlit("minutes");
    reveal_strlit("h");
    reveal_strlit("hr");
    reveal_strlit("hrs");
    reveal_strlit("hour");
    reveal_strlit("hours");
    reveal_strlit("d");
    reveal_strlit("day");
    reveal_strlit("days");
}

/// Every unit but a custom one is found again under the name it is shown
/// with, and no name denotes a custom unit.
pub proof fn law_unit_name_round_trip(u: UnitV, s: Seq<char>)
    ensures
        !(u is Custom) ==> unit_named(u.name()) == Some(u),
        unit_named(s) matches Some(v) ==> !(v is Custom),
{
    lemma_unit_name_lengths();
    match u {
        UnitV::Meter => {},
        UnitV::Kilometer => {},
        UnitV::Centimeter => {
            reveal_strlit("cm");
            reveal_strlit("km");
            assert("cm"@[0] != "km"@[0]);
        },
        UnitV::Millimeter => {
            reveal_strlit("cm");
            reveal_strlit("km");
            reveal_strlit("mm");
            assert("mm"@[0] != "km"@[0]);
            assert("mm"@[0] != "cm"@[0]);
        },
        UnitV::Inch => {
            reveal_strlit("cm");
            reveal_strlit("in");
            reveal_strlit("km");
            reveal_strlit("mm");
            assert("in"@[0] != "km"@[0]);
            assert("in"@[0] != "cm"@[0]);
            assert("in"@[0] != "mm"@[0]);
        },
        UnitV::Foot => {
            reveal_strlit("cm");
            reveal_strlit("ft");
            reveal_strlit("in");
            reveal_strlit("km");
            reveal_strlit("mm");
            assert("ft"@[0] != "km"@[0]);
            assert("ft"@[0] != "cm"@[0]);
            assert("ft"@[0] != "mm"@[0]);
            assert("ft"@[0] != "in"@[0]);
        },
        UnitV::Yard => {
            reveal_strlit("cm");
            reveal_strlit("ft");
            reveal_strlit("in");
            reveal_strlit("km");
            reveal_strlit("mm");
            reveal_strlit("yd");
            assert("yd"@[0] != "km"@[0]);
            assert("yd"@[0] != "cm"@[0]);
            assert("yd"@[0] != "mm"@[0]);
            assert("yd"@[0] != "in"@[0]);
            assert("yd"@[0] != "ft"@[0]);
        },
        UnitV::Mile => {
            reveal_strlit("cm");
            reveal_strlit("ft");
            reveal_strlit("in");
            reveal_strlit("km");
            reveal_strlit("mi");
            reveal_strlit("mm");
            reveal_strlit("yd");
            assert("mi"@[0] != "km"@[0]);
            assert("mi"@[0] != "cm"@[0]);
            assert("mi"@[1] != "mm"@[1]);
            assert("mi"@[0] != "in"@[0]);
            assert("mi"@[0] != "ft"@[0]);
            assert("mi"@[0] != "yd"@[0]);
        },
        UnitV::Kilogram => {
            reveal_strlit("cm");
            reveal_strlit("ft");
            reveal_strlit("in");
            reveal_strlit("kg");
            reveal_strlit("km");
            reveal_strlit("mi");
            reveal_strlit("mm");
            reveal_strlit("yd");
            assert("kg"@[1] != "km"@[1]);
            assert("kg"@[0] != "cm"@[0]);
            assert("kg"@[0] != "mm"@[0]);
            assert("kg"@[0] != "in"@[0]);
            assert("kg"@[0] != "ft"@[0]);
            assert("kg"@[0] != "yd"@[0]);
            assert("kg"@[0] != "mi"@[0]);
        },
        UnitV::Gram => {
            reveal_strlit("g");
            reveal_strlit("m");
            assert("g"@[0] != "m"@[0]);
        },
        UnitV::Milligram => {
            reveal_strlit("cm");
            reveal_strlit("ft");
            reveal_strlit("in");
            reveal_strlit("kg");
            reveal_strlit("km");
            reveal_strlit("mg");
            reveal_strlit("mi");
            reveal_strlit("mm");
            reveal_strlit("yd");
            assert("mg"@[0] != "km"@[0]);
            assert("mg"@[0] != "cm"@[0]);
            assert("mg"@[1] != "mm"@[1]);
            assert("mg"@[0] != "in"@[0]);
            assert("mg"@[0] != "ft"@[0]);
            assert("mg"@[0] != "yd"@[0]);
            assert("mg"@[1] != "mi"@[1]);
            assert("mg"@[0] != "kg"@[0]);
        },
        UnitV::Pound => {
            reveal_strlit("cm");
            reveal_strlit("ft");
            reveal_strlit("in");
            reveal_strlit("kg");
            reveal_strlit("km");
            reveal_strlit("lb");
            reveal_strlit("mg");
            reveal_strlit("mi");
            reveal_strlit("mm");
            reveal_strlit("yd");
            assert("lb"@[0] != "km"@[0]);
            assert("lb"@[0] != "cm"@[0]);
            assert("lb"@[0] != "mm"@[0]);
            assert("lb"@[0] != "in"@[0]);
            assert("lb"@[0] != "ft"@[0]);
            assert("lb"@[0] != "yd"@[0]);
            assert("lb"@[0] != "mi"@[0]);
            assert("lb"@[0] != "kg"@[0]);
            assert("lb"@[0] != "mg"@[0]);
        },
        UnitV::Ounce => {
            reveal_strlit("cm");
            reveal_strlit("ft");
            reveal_strlit("in");
            reveal_strlit("kg");
            reveal_strlit("km");
            reveal_strlit("lb");
            reveal_strlit("mg");
            reveal_strlit("mi");
            reveal_strlit("mm");
            reveal_strlit("oz");
            reveal_strlit("yd");
            assert("oz"@[0] != "km"@[0]);
            assert("oz"@[0] != "cm"@[0]);
            assert("oz"@[0] != "mm"@[0]);
            assert("oz"@[0] != "in"@[0]);
            assert("oz"@[0] != "ft"@[0]);
            assert("oz"@[0] != "yd"@[0]);
            assert("oz"@[0] != "mi"@[0]);
            assert("oz"@[0] != "kg"@[0]);
            assert("oz"@[0] != "mg"@[0]);
            assert("oz"@[0] != "lb"@[0]);
        },
        UnitV::Celsius => {
            reveal_strlit("cm");
            reveal_strlit("ft");
            reveal_strlit("in");
            reveal_strlit("kg");
            reveal_strlit("km");
            reveal_strlit("lb");
            reveal_strlit("mg");
            reveal_strlit("mi");
            reveal_strlit("mm");
            reveal_strlit("oz");
            reveal_strlit("yd");
            reveal_strlit("°C");
            assert("°C"@[0] != "km"@[0]);
            assert("°C"@[0] != "cm"@[0]);
            assert("°C"@[0] != "mm"@[0]);
            assert("°C"@[0] != "in"@[0]);
            assert("°C"@[0] != "ft"@[0]);
            assert("°C"@[0] != "yd"@[0]);
            assert("°C"@[0] != "mi"@[0]);
            assert("°C"@[0] != "kg"@[0]);
            assert("°C"@[0] != "mg"@[0]);
            assert("°C"@[0] != "lb"@[0]);
            assert("°C"@[0] != "oz"@[0]);
        },
        UnitV::Fahrenheit => {
            reveal_strlit("cm");
            reveal_strlit("ft");
            reveal_strlit("in");
            reveal_strlit("kg");
            reveal_strlit("km");
            reveal_strlit("lb");
            reveal_strlit("mg");
            reveal_strlit("mi");
            reveal_strlit("mm");
            reveal_strlit("oz");
            reveal_strlit("yd");
            reveal_strlit("°C");
            reveal_strlit("°F");
            assert("°F"@[0] != "km"@[0]);
            assert("°F"@[0] != "cm"@[0]);
            assert("°F"@[0] != "mm"@[0]);
            assert("°F"@[0] != "in"@[0]);
            assert("°F"@[0] != "ft"@[0]);
            assert("°F"@[0] != "yd"@[0]);
            assert("°F"@[0] != "mi"@[0]);
            assert("°F"@[0] != "kg"@[0]);
            assert("°F"@[0] != "mg"@[0]);
            assert("°F"@[0] != "lb"@[0]);
            assert("°F"@[0] != "oz"@[0]);
            assert("°F"@[1] != "°C"@[1]);
        },
        UnitV::Kelvin => {
            reveal_strlit("C");
            reveal_strlit("F");
            reveal_strlit("K");
            reveal_strlit("g");
            reveal_strlit("m");
            assert("K"@[0] != "m"@[0]);
            assert("K"@[0] != "g"@[0]);
            assert("K"@[0] != "C"@[0]);
            assert("K"@[0] != "F"@[0]);
        },
        UnitV::Byte => {
            reveal_strlit("B");
            reveal_strlit("C");
            reveal_strlit("F");
            reveal_strlit("K");
            reveal_strlit("g");
            reveal_strlit("m");
            assert("B"@[0] != "m"@[0]);
            assert("B"@[0] != "g"@[0]);
            assert("B"@[0] != "C"@[0]);
            assert("B"@[0] != "F"@[0]);
            assert("B"@[0] != "K"@[0]);
        },
        UnitV::Kilobyte => {
            reveal_strlit("KB");
            reveal_strlit("cm");
            reveal_strlit("ft");
            reveal_strlit("in");
            reveal_strlit("kg");
            reveal_strlit("km");
            reveal_strlit("lb");
            reveal_strlit("mg");
            reveal_strlit("mi");
            reveal_strlit("mm");
            reveal_strlit("oz");
            reveal_strlit("yd");
            reveal_strlit("°C");
            reveal_strlit("°F");
            assert("KB"@[0] != "km"@[0]);
            assert("KB"@[0] != "cm"@[0]);
            assert("KB"@[0] != "mm"@[0]);
            assert("KB"@[0] != "in"@[0]);
            assert("KB"@[0] != "ft"@[0]);
            assert("KB"@[0] != "yd"@[0]);
            assert("KB"@[0] != "mi"@[0]);
            assert("KB"@[0] != "kg"@[0]);
            assert("KB"@[0] != "mg"@[0]);
            assert("KB"@[0] != "lb"@[0]);
            assert("KB"@[0] != "oz"@[0]);
            assert("KB"@[0] != "°C"@[0]);
            assert("KB"@[0] != "°F"@[0]);
        },
        UnitV::Megabyte => {
            reveal_strlit("KB");
            reveal_strlit("MB");
            reveal_strlit("cm");
            reveal_strlit("ft");
            reveal_strlit("in");
            reveal_strlit("kg");
            reveal_strlit("km");
            reveal_strlit("lb");
            reveal_strlit("mg");
            reveal_strlit("mi");
            reveal_strlit("mm");
            reveal_strlit("oz");
            reveal_strlit("yd");
            reveal_strlit("°C");
            reveal_strlit("°F");
            assert("MB"@[0] != "km"@[0]);
            assert("MB"@[0] != "cm"@[0]);
            assert("MB"@[0] != "mm"@[0]);
            assert("MB"@[0] != "in"@[0]);
            assert("MB"@[0] != "ft"@[0]);
            assert("MB"@[0] != "yd"@[0]);
            assert("MB"@[0] != "mi"@[0]);
            assert("MB"@[0] != "kg"@[0]);
            assert("MB"@[0] != "mg"@[0]);
            assert("MB"@[0] != "lb"@[0]);
            assert("MB"@[0] != "oz"@[0]);
            assert("MB"@[0] != "°C"@[0]);
            assert("MB"@[0] != "°F"@[0]);
            assert("MB"@[0] != "KB"@[0]);
        },
        UnitV::Gigabyte => {
            reveal_strlit("GB");
            reveal_strlit("KB");
            reveal_strlit("MB");
            reveal_strlit("cm");
            reveal_strlit("ft");
            reveal_strlit("in");
            reveal_strlit("kg");
            reveal_strlit("km");
            reveal_strlit("lb");
            reveal_strlit("mg");
            reveal_strlit("mi");
            reveal_strlit("mm");
            reveal_strlit("oz");
            reveal_strlit("yd");
            reveal_strlit("°C");
            reveal_strlit("°F");
            assert("GB"@[0] != "km"@[0]);
            assert("GB"@[0] != "cm"@[0]);
            assert("GB"@[0] != "mm"@[0]);
            assert("GB"@[0] != "in"@[0]);
            assert("GB"@[0] != "ft"@[0]);
            assert("GB"@[0] != "yd"@[0]);
            assert("GB"@[0] != "mi"@[0]);
            assert("GB"@[0] != "kg"@[0]);
            assert("GB"@[0] != "mg"@[0]);
            assert("GB"@[0] != "lb"@[0]);
            assert("GB"@[0] != "oz"@[0]);
            assert("GB"@[0] != "°C"@[0]);
            assert("GB"@[0] != "°F"@[0]);
            assert("GB"@[0] != "KB"@[0]);
            assert("GB"@[0] != "MB"@[0]);
        },
        UnitV::Terabyte => {
            reveal_strlit("GB");
            reveal_strlit("KB");
            reveal_strlit("MB");
            reveal_strlit("TB");
            reveal_strlit("cm");
            reveal_strlit("ft");
            reveal_strlit("in");
            reveal_strlit("kg");
            reveal_strlit("km");
            reveal_strlit("lb");
            reveal_strlit("mg");
            reveal_strlit("mi");
            reveal_strlit("mm");
            reveal_strlit("oz");
            reveal_strlit("yd");
            reveal_strlit("°C");
            reveal_strlit("°F");
            assert("TB"@[0] != "km"@[0]);
            assert("TB"@[0] != "cm"@[0]);
            assert("TB"@[0] != "mm"@[0]);
            assert("TB"@[0] != "in"@[0]);
            assert("TB"@[0] != "ft"@[0]);
            assert("TB"@[0] != "yd"@[0]);
            assert("TB"@[0] != "mi"@[0]);
            assert("TB"@[0] != "kg"@[0]);
            assert("TB"@[0] != "mg"@[0]);
            assert("TB"@[0] != "lb"@[0]);
            assert("TB"@[0] != "oz"@[0]);
            assert("TB"@[0] != "°C"@[0]);
            assert("TB"@[0] != "°F"@[0]);
            assert("TB"@[0] != "KB"@[0]);
            assert("TB"@[0] != "MB"@[0]);
            assert("TB"@[0] != "GB"@[0]);
        },
        UnitV::Second => {
            reveal_strlit("B");
            reveal_strlit("C");
            reveal_strlit("F");
            reveal_strlit("K");
            reveal_strlit("g");
            reveal_strlit("m");
            reveal_strlit("s");
            assert("s"@[0] != "m"@[0]);
            assert("s"@[0] != "g"@[0]);
            assert("s"@[0] != "C"@[0]);
            assert("s"@[0] != "F"@[0]);
            assert("s"@[0] != "K"@[0]);
            assert("s"@[0] != "B"@[0]);
        },
        UnitV::Minute => {
            reveal_strlit("lbs");
            reveal_strlit("min");
            reveal_strlit("sec");
            assert("min"@[0] != "lbs"@[0]);
            assert("min"@[0] != "sec"@[0]);
        },
        UnitV::Hour => {
            reveal_strlit("B");
            reveal_strlit("C");
            reveal_strlit("F");
            reveal_strlit("K");
            reveal_strlit("g");
            reveal_strlit("h");
            reveal_strlit("m");
            reveal_strlit("s");
            assert("h"@[0] != "m"@[0]);
            assert("h"@[0] != "g"@[0]);
            assert("h"@[0] != "C"@[0]);
            assert("h"@[0] != "F"@[0]);
            assert("h"@[0] != "K"@[0]);
            assert("h"@[0] != "B"@[0]);
            assert("h"@[0] != "s"@[0]);
        },
        UnitV::Day => {
            reveal_strlit("B");
            reveal_strlit("C");
            reveal_strlit("F");
            reveal_strlit("K");
            reveal_strlit("d");
            reveal_strlit("g");
            reveal_strlit("h");
            reveal_strlit("m");
            reveal_strlit("s");
            assert("d"@[0] != "m"@[0]);
            assert("d"@[0] != "g"@[0]);
            assert("d"@[0] != "C"@[0]);
            assert("d"@[0] != "F"@[0]);
            assert("d"@[0] != "K"@[0]);
            assert("d"@[0] != "B"@[0]);
            assert("d"@[0] != "s"@[0]);
            assert("d"@[0] != "h"@[0]);
        },
        UnitV::Custom(_) => {},
    }
}

/// What converting from `from` to `to` does: nothing for equal units, an error
/// for units of different categories, otherwise the category's method.
pub open spec fn conversion_outcome(from: UnitV, to: UnitV) -> Result<ConversionPlan, Seq<char>> {
    if from == to {
        Ok(ConversionPlan::Identity)
    } else if from.category() != to.category() {
        Err("Cannot convert "@ + from.name() + " to "@ + to.name() + ": incompatible units"@)
    } else if from.category() == UnitCategory::Temperature {
        Ok(ConversionPlan::Temperature)
    } else {
        Ok(ConversionPlan::ViaBase)
    }
}

impl Unit {
    /// The category of the unit.
    pub fn category(&self) -> (r: UnitCategory)
        ensures
            r == self@.category(),
    {
        match self {
            Unit::Meter => UnitCategory::Length,
            Unit::Kilometer => UnitCategory::Length,
            Unit::Centimeter => UnitCategory::Length,
            Unit::Millimeter => UnitCategory::Length,
            Unit::Inch => UnitCategory::Length,
            Unit::Foot => UnitCategory::Length,
            Unit::Yard => UnitCategory::Length,
            Unit::Mile => UnitCategory::Length,
            Unit::Kilogram => UnitCategory::Mass,
            Unit::Gram => UnitCategory::Mass,
            Unit::Milligram => UnitCategory::Mass,
            Unit::Pound => UnitCategory::Mass,
            Unit::Ounce => UnitCategory::Mass,
            Unit::Celsius => UnitCategory::Temperature,
            Unit::Fahrenheit => UnitCategory::Temperature,
            Unit::Kelvin => UnitCategory::Temperature,
            Unit::Byte => UnitCategory::Data,
            Unit::Kilobyte => UnitCategory::Data,
            Unit::Megabyte => UnitCategory::Data,
            Unit::Gigabyte => UnitCategory::Data,
            Unit::Terabyte => UnitCategory::Data,
            Unit::Second => UnitCategory::Time,
            Unit::Minute => UnitCategory::Time,
            Unit::Hour => UnitCategory::Time,
            Unit::Day => UnitCategory::Time,
            Unit::Custom(_) => UnitCategory::Custom,
        }
    }

    /// Recognises a unit by one of its names; `None` for unknown names.
    pub fn from_str(s: &str) -> (r: Option<Unit>)
        ensures
            match r {
                Some(u) => unit_named(s@) == Some(u@),
                None => unit_named(s@) is None,
            },
    {
        if str_eq(s, "m") || str_eq(s, "meter") || str_eq(s, "meters") {
            Some(Unit::Meter)
        } else if str_eq(s, "km") || str_eq(s, "kilometer") || str_eq(s, "kilometers") || str_eq(s, "kilometre") || str_eq(s, "kilometres") {
            Some(Unit::Kilometer)
        } else if str_eq(s, "cm") || str_eq(s, "centimeter") || str_eq(s, "centimeters") || str_eq(s, "centimetre") || str_eq(s, "centimetres") {
            Some(Unit::Centimeter)
        } else if str_eq(s, "mm") || str_eq(s, "millimeter") || str_eq(s, "millimeters") || str_eq(s, "millimetre") || str_eq(s, "millimetres") {
            Some(Unit::Millimeter)
        } else if str_eq(s, "in") || str_eq(s, "inch") || str_eq(s, "inches") {
            Some(Unit::Inch)
        } else if str_eq(s, "ft") || str_eq(s, "foot") || str_eq(s, "feet") {
            Some(Unit::Foot)
        } else if str_eq(s, "yd") || str_eq(s, "yard") || str_eq(s, "yards") {
            Some(Unit::Yard)
        } else if str_eq(s, "mi") || str_eq(s, "mile") || str_eq(s, "miles") {
            Some(Unit::Mile)
        } else if str_eq(s, "kg") || str_eq(s, "kilogram") || str_eq(s, "kilograms") {
            Some(Unit::Kilogram)
        } else if str_eq(s, "g") || str_eq(s, "gram") || str_eq(s, "grams") {
            Some(Unit::Gram)
        } else if str_eq(s, "mg") || str_eq(s, "milligram") || str_eq(s, "milligrams") {
            Some(Unit::Milligram)
        } else if str_eq(s, "lb") || str_eq(s, "lbs") || str_eq(s, "pound") || str_eq(s, "pounds") {
            Some(Unit::Pound)
        } else if str_eq(s, "oz") || str_eq(s, "ounce") || str_eq(s, "ounces") {
            Some(Unit::Ounce)
        } else if str_eq(s, "C") || str_eq(s, "°C") || str_eq(s, "celsius") || str_eq(s, "Celsius") {
            Some(Unit::Celsius)
        } else if str_eq(s, "F") || str_eq(s, "°F") || str_eq(s, "fahrenheit") || str_eq(s, "Fahrenheit") {
            Some(Unit::Fahrenheit)
        } else if str_eq(s, "K") || str_eq(s, "kelvin") || str_eq(s, "Kelvin") {
            Some(Unit::Kelvin)
        } else if str_eq(s, "B") || str_eq(s, "byte") || str_eq(s, "bytes") {
            Some(Unit::Byte)
        } else if str_eq(s, "KB") || str_eq(s, "kilobyte") || str_eq(s, "kilobytes") {
            Some(Unit::Kilobyte)
        } else if str_eq(s, "MB") || str_eq(s, "megabyte") || str_eq(s, "megabytes") {
            Some(Unit::Megabyte)
        } else if str_eq(s, "GB") || str_eq(s, "gigabyte") || str_eq(s, "gigabytes") {
            Some(Unit::Gigabyte)
        } else if str_eq(s, "TB") || str_eq(s, "terabyte") || str_eq(s, "terabytes") {
            Some(Unit::Terabyte)
        } else if str_eq(s, "s") || str_eq(s, "sec") || str_eq(s, "secs") || str_eq(s, "second") || str_eq(s, "seconds") {
            Some(Unit::Second)
        } else if str_eq(s, "min") || str_eq(s, "mins") || str_eq(s, "minute") || str_eq(s, "minutes") {
            Some(Unit::Minute)
        } else if str_eq(s, "h") || str_eq(s, "hr") || str_eq(s, "hrs") || str_eq(s, "hour") || str_eq(s, "hours") {
            Some(Unit::Hour)
        } else if str_eq(s, "d") || str_eq(s, "day") || str_eq(s, "days") {
            Some(Unit::Day)
        } else {
            None
        }
    }

    /// The short display name of the unit (`km`, `°C`, or a custom unit's own name).
    pub fn name(&self) -> (r: String)
        ensures
            r@ == self@.name(),
    {
        match self {
            Unit::Meter => String::from_str("m"),
            Unit::Kilometer => String::from_str("km"),
            Unit::Centimeter => String::from_str("cm"),
            Unit::Millimeter => String::from_str("mm"),
            Unit::Inch => String::from_str("in"),
            Unit::Foot => String::from_str("ft"),
            Unit::Yard => String::from_str("yd"),
            Unit::Mile => String::from_str("mi"),
            Unit::Kilogram => String::from_str("kg"),
            Unit::Gram => String::from_str("g"),
            Unit::Milligram => String::from_str("mg"),
            Unit::Pound => String::from_str("lb"),
            Unit::Ounce => String::from_str("oz"),
            Unit::Celsius => String::from_str("°C"),
            Unit::Fahrenheit => String::from_str("°F"),
            Unit::Kelvin => String::from_str("K"),
            Unit::Byte => String::from_str("B"),
            Unit::Kilobyte => String::from_str("KB"),
            Unit::Megabyte => String::from_str("MB"),
            Unit::Gigabyte => String::from_str("GB"),
            Unit::Terabyte => String::from_str("TB"),
            Unit::Second => String::from_str("s"),
            Unit::Minute => String::from_str("min"),
            Unit::Hour => String::from_str("h"),
            Unit::Day => String::from_str("d"),
            Unit::Custom(s) => s.clone(),
        }
    }

    /// A copy of the unit.
    pub fn duplicate(&self) -> (r: Unit)
        ensures
            r@ == self@,
    {
        match self {
            Unit::Meter => Unit::Meter,
            Unit::Kilometer => Unit::Kilometer,
            Unit::Centimeter => Unit::Centimeter,
            Unit::Millimeter => Unit::Millimeter,
            Unit::Inch => Unit::Inch,
            Unit::Foot => Unit::Foot,
            Unit::Yard => Unit::Yard,
            Unit::Mile => Unit::Mile,
            Unit::Kilogram => Unit::Kilogram,
            Unit::Gram => Unit::Gram,
            Unit::Milligram => Unit::Milligram,
            Unit::Pound => Unit::Pound,
            Unit::Ounce => Unit::Ounce,
            Unit::Celsius => Unit::Celsius,
            Unit::Fahrenheit => Unit::Fahrenheit,
            Unit::Kelvin => Unit::Kelvin,
            Unit::Byte => Unit::Byte,
            Unit::Kilobyte => Unit::Kilobyte,
            Unit::Megabyte => Unit::Megabyte,
            Unit::Gigabyte => Unit::Gigabyte,
            Unit::Terabyte => Unit::Terabyte,
            Unit::Second => Unit::Second,
            Unit::Minute => Unit::Minute,
            Unit::Hour => Unit::Hour,
            Unit::Day => Unit::Day,
            Unit::Custom(s) => Unit::Custom(s.clone()),
        }
    }

    /// Whether two units are the same unit (custom units by name).
    pub fn same_as(&self, other: &Unit) -> (r: bool)
        ensures
            r == (self@ == other@),
    {
        match (self, other) {
            (Unit::Meter, Unit::Meter) => true,
            (Unit::Kilometer, Unit::Kilometer) => true,
            (Unit::Centimeter, Unit::Centimeter) => true,
            (Unit::Millimeter, Unit::Millimeter) => true,
            (Unit::Inch, Unit::Inch) => true,
            (Unit::Foot, Unit::Foot) => true,
            (Unit::Yard, Unit::Yard) => true,
            (Unit::Mile, Unit::Mile) => true,
            (Unit::Kilogram, Unit::Kilogram) => true,
            (Unit::Gram, Unit::Gram) => true,
            (Unit::Milligram, Unit::Milligram) => true,
            (Unit::Pound, Unit::Pound) => true,
            (Unit::Ounce, Unit::Ounce) => true,
            (Unit::Celsius, Unit::Celsius) => true,
            (Unit::Fahrenheit, Unit::Fahrenheit) => true,
            (Unit::Kelvin, Unit::Kelvin) => true,
            (Unit::Byte, Unit::Byte) => true,
            (Unit::Kilobyte, Unit::Kilobyte) => true,
            (Unit::Megabyte, Unit::Megabyte) => true,
            (Unit::Gigabyte, Unit::Gigabyte) => true,
            (Unit::Terabyte, Unit::Terabyte) => true,
            (Unit::Second, Unit::Second) => true,
            (Unit::Minute, Unit::Minute) => true,
            (Unit::Hour, Unit::Hour) => true,
            (Unit::Day, Unit::Day) => true,
            (Unit::Custom(a), Unit::Custom(b)) => str_eq(a.as_str(), b.as_str()),
            _ => false,
        }
    }

    /// The unit-level part of converting a value from `from` to `to`: which
    /// method applies, or the error for units of different categories.
    pub fn conversion_plan(from: &Unit, to: &Unit) -> (r: Result<ConversionPlan, CalcError>)
        ensures
            match r {
                Ok(p) => conversion_outcome(from@, to@) == Ok::<ConversionPlan, Seq<char>>(p),
                Err(e) => conversion_outcome(from@, to@) == Err::<ConversionPlan, Seq<char>>(e@.message)
                    && e.line == 0 && e.col == 0,
            },
    {
        if from.same_as(to) {
            return Ok(ConversionPlan::Identity);
        }
        let fc = from.category();
        let tc = to.category();
        if fc != tc {
            let fname = from.name();
            let tname = to.name();
            let mut m = concat_str("Cannot convert ", fname.as_str());
            m.append(" to ");
            m.append(tname.as_str());
            m.append(": incompatible units");
            return Err(CalcError::eval(m));
        }
        if fc == UnitCategory::Temperature {
            Ok(ConversionPlan::Temperature)
        } else {
            Ok(ConversionPlan::ViaBase)
        }
    }
}

} // verus!
