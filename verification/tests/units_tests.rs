use calc_core::units::{ConversionPlan, Unit, UnitCategory};

#[test]
fn test_incompatible_units() {
    let result = Unit::conversion_plan(&Unit::Meter, &Unit::Gram);
    assert!(result.is_err());
}

#[test]
fn length_conversion_goes_through_the_base_unit() {
    assert_eq!(Unit::conversion_plan(&Unit::Kilometer, &Unit::Meter).unwrap(), ConversionPlan::ViaBase);
}

#[test]
fn temperature_conversion_uses_offsets() {
    assert_eq!(
        Unit::conversion_plan(&Unit::Celsius, &Unit::Fahrenheit).unwrap(),
        ConversionPlan::Temperature
    );
    assert_eq!(Unit::conversion_plan(&Unit::Celsius, &Unit::Celsius).unwrap(), ConversionPlan::Identity);
}

#[test]
fn unit_names_and_categories() {
    assert!(matches!(Unit::from_str("km"), Some(Unit::Kilometer)));
    assert!(Unit::from_str("parsec").is_none());
    assert_eq!(Unit::Gram.category(), UnitCategory::Mass);
}

#[test]
fn unit_names_read_back() {
    let all = [
        Unit::Meter, Unit::Kilometer, Unit::Centimeter, Unit::Millimeter, Unit::Inch, Unit::Foot,
        Unit::Yard, Unit::Mile, Unit::Kilogram, Unit::Gram, Unit::Milligram, Unit::Pound, Unit::Ounce,
        Unit::Celsius, Unit::Fahrenheit, Unit::Kelvin, Unit::Byte, Unit::Kilobyte, Unit::Megabyte,
        Unit::Gigabyte, Unit::Terabyte, Unit::Second, Unit::Minute, Unit::Hour, Unit::Day,
    ];
    for u in all {
        assert_eq!(Unit::from_str(&u.name()), Some(u));
    }
    assert_eq!(Unit::from_str("°C"), Some(Unit::Celsius));
    assert_eq!(Unit::from_str("min"), Some(Unit::Minute));
    assert_eq!(Unit::from_str("widgets"), None);
}
