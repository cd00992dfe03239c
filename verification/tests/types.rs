use parallaxis::types::{Confidence, ConversationState, DomainConfig, EntityId, ENTITY_STACK_LIMIT};
use parallaxis::normalizer::{conversion, units_equal, Conversion};
use parallaxis::types::Unit;
use parallaxis::error::ParallaxisError;

#[test]
fn push_entity_puts_most_recent_first() {
    let mut s = ConversationState::new();
    s.push_entity(EntityId(1));
    s.push_entity(EntityId(2));
    assert_eq!(s.entity_stack, vec![EntityId(2), EntityId(1)]);
    assert!(s.active_domain.is_none());
    assert!(s.resolutions.is_empty());
}

#[test]
fn push_entity_keeps_at_most_ten() {
    let mut s = ConversationState::new();
    for i in 0..15u64 {
        s.push_entity(EntityId(i));
    }
    assert_eq!(s.entity_stack.len(), ENTITY_STACK_LIMIT);
    assert_eq!(s.entity_stack[0], EntityId(14));
    assert_eq!(s.entity_stack[9], EntityId(5));
}

#[test]
fn default_domain_config() {
    let c = DomainConfig::default();
    assert_eq!(c.cache_ttl_secs, 15_552_000);
    assert_eq!(f64::from_bits(c.numeric_tolerance.0), 0.03);
    assert_eq!(c.date_tolerance_days, 0);
    assert_eq!(f64::from_bits(c.coordinate_tolerance_km.0), 1.0);
}

#[test]
fn confidence_names() {
    assert_eq!(Confidence::Verified.name(), "Verified");
    assert_eq!(Confidence::Provisional.name(), "Provisional");
    assert_eq!(Confidence::Axiom.name(), "Axiom");
}

#[test]
fn conversions_between_known_units() {
    assert_eq!(conversion(&Unit::Celsius, &Unit::Kelvin).unwrap(), Conversion::CelsiusToKelvin);
    assert_eq!(conversion(&Unit::Fahrenheit, &Unit::Celsius).unwrap(), Conversion::FahrenheitToCelsius);
    assert_eq!(conversion(&Unit::SquareMeter, &Unit::SquareKilometer).unwrap(), Conversion::SquareMeterToSquareKilometer);
    assert_eq!(conversion(&Unit::Liter, &Unit::CubicMeter).unwrap(), Conversion::LiterToCubicMeter);
}

#[test]
fn same_unit_converts_to_itself() {
    assert_eq!(conversion(&Unit::Meter, &Unit::Meter).unwrap(), Conversion::Identity);
    assert_eq!(conversion(&Unit::Count, &Unit::Count).unwrap(), Conversion::Identity);
    assert_eq!(
        conversion(&Unit::Currency("BRL".to_string()), &Unit::Currency("BRL".to_string())).unwrap(),
        Conversion::Identity
    );
}

#[test]
fn unconvertible_units_give_normalization_error() {
    match conversion(&Unit::Count, &Unit::Kelvin) {
        Err(ParallaxisError::Normalization(m)) => assert_eq!(m, "Cannot convert Count to Kelvin"),
        other => panic!("unexpected {:?}", other),
    }
    match conversion(&Unit::Kelvin, &Unit::Fahrenheit) {
        Err(ParallaxisError::Normalization(m)) => assert_eq!(m, "Cannot convert Kelvin to Fahrenheit"),
        other => panic!("unexpected {:?}", other),
    }
    match conversion(&Unit::Unitless, &Unit::Currency("USD".to_string())) {
        Err(ParallaxisError::Normalization(m)) => assert_eq!(m, "Cannot convert None to Currency(\"USD\")"),
        other => panic!("unexpected {:?}", other),
    }
    match conversion(&Unit::Custom("a".to_string()), &Unit::Custom("b".to_string())) {
        Err(ParallaxisError::Normalization(m)) => assert_eq!(m, "Cannot convert Custom(\"a\") to Custom(\"b\")"),
        other => panic!("unexpected {:?}", other),
    }
}

#[test]
fn unit_equality() {
    assert!(units_equal(&Unit::Kelvin, &Unit::Kelvin));
    assert!(!units_equal(&Unit::Kelvin, &Unit::Celsius));
    assert!(!units_equal(&Unit::Currency("USD".to_string()), &Unit::Currency("EUR".to_string())));
}
