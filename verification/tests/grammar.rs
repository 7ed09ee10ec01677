use nautilus_model::bar::{BarSpecification, BarType};
use nautilus_model::enums::{AggregationSource, BarAggregation, PriceType};
use nautilus_model::identifiers::InstrumentId;

fn instrument(symbol: &str, venue: &str) -> InstrumentId {
    InstrumentId::new(symbol, venue).unwrap()
}

#[test]
fn test_bar_spec_string_reprs() {
    let bar_spec = BarSpecification {
        step: 1,
        aggregation: BarAggregation::Minute,
        price_type: PriceType::Bid,
    };
    assert_eq!(bar_spec.to_string(), "1-MINUTE-BID");
}

#[test]
fn test_bar_type_parse_valid() {
    let input = "BTCUSDT-PERP.BINANCE-1-MINUTE-LAST-EXTERNAL";
    let bar_type = BarType::from_str(input).unwrap();

    assert_eq!(bar_type.instrument_id, instrument("BTCUSDT-PERP", "BINANCE"));
    assert_eq!(
        bar_type.spec,
        BarSpecification {
            step: 1,
            aggregation: BarAggregation::Minute,
            price_type: PriceType::Last,
        }
    );
    assert_eq!(bar_type.aggregation_source, AggregationSource::External);
}

#[test]
fn test_bar_type_format_parse_round_trip() {
    let input = "BTCUSDT-PERP.BINANCE-1-MINUTE-LAST-EXTERNAL";
    let bar_type = BarType::from_str(input).unwrap();
    assert_eq!(bar_type.to_string(), input);
    let reparsed = BarType::from_str(&bar_type.to_string()).unwrap();
    assert_eq!(reparsed, bar_type);
}

#[test]
fn test_bar_type_parse_invalid_token_pos_0() {
    let input = "BTCUSDT-PERP-1-MINUTE-LAST-INTERNAL";
    let result = BarType::from_str(input);

    assert_eq!(
        result.unwrap_err().message(),
        format!("Error parsing `BarType` from '{input}', invalid token: 'BTCUSDT-PERP' at position 0")
    );
}

#[test]
fn test_bar_type_parse_invalid_token_pos_1() {
    let input = "BTCUSDT-PERP.BINANCE-INVALID-MINUTE-LAST-INTERNAL";
    let result = BarType::from_str(input);

    assert_eq!(
        result.unwrap_err().message(),
        format!("Error parsing `BarType` from '{input}', invalid token: 'INVALID' at position 1")
    );
}

#[test]
fn test_bar_type_parse_invalid_token_pos_2() {
    let input = "BTCUSDT-PERP.BINANCE-1-INVALID-LAST-INTERNAL";
    let result = BarType::from_str(input);

    assert_eq!(
        result.unwrap_err().message(),
        format!("Error parsing `BarType` from '{input}', invalid token: 'INVALID' at position 2")
    );
}

#[test]
fn test_bar_type_parse_invalid_token_pos_3() {
    let input = "BTCUSDT-PERP.BINANCE-1-MINUTE-INVALID-INTERNAL";
    let result = BarType::from_str(input);

    assert_eq!(
        result.unwrap_err().message(),
        format!("Error parsing `BarType` from '{input}', invalid token: 'INVALID' at position 3")
    );
}

#[test]
fn test_bar_type_parse_invalid_token_pos_4() {
    let input = "BTCUSDT-PERP.BINANCE-1-MINUTE-BID-INVALID";
    let result = BarType::from_str(input);

    assert!(result.is_err());
    assert_eq!(
        result.unwrap_err().message(),
        format!("Error parsing `BarType` from '{input}', invalid token: 'INVALID' at position 4")
    );
}

#[test]
fn test_bar_type_parse_too_few_fields() {
    let result = BarType::from_str("1-MINUTE-BID-EXTERNAL");
    let err = result.unwrap_err();
    assert_eq!(err.position(), 0);
    assert_eq!(err.token(), "");
}

#[test]
fn test_bar_type_parse_step_overflow() {
    let input = "BTCUSDT-PERP.BINANCE-99999999999999999999-MINUTE-LAST-EXTERNAL";
    let err = BarType::from_str(input).unwrap_err();
    assert_eq!(err.position(), 1);
    assert_eq!(err.token(), "99999999999999999999");
}

#[test]
fn test_instrument_id_requires_venue_separator() {
    assert!(InstrumentId::from_str("BTCUSDT-PERP").is_none());
    let id = InstrumentId::from_str("BTCUSDT-PERP.BINANCE").unwrap();
    assert_eq!(id.symbol(), "BTCUSDT-PERP");
    assert_eq!(id.venue(), "BINANCE");
    assert_eq!(id.to_string(), "BTCUSDT-PERP.BINANCE");
}

#[test]
fn test_bar_type_equality() {
    let instrument_id1 = instrument("AUD/USD", "SIM");
    let instrument_id2 = instrument("GBP/USD", "SIM");
    let bar_spec = BarSpecification {
        step: 1,
        aggregation: BarAggregation::Minute,
        price_type: PriceType::Bid,
    };
    let bar_type1 = BarType {
        instrument_id: instrument_id1.clone(),
        spec: bar_spec,
        aggregation_source: AggregationSource::External,
    };
    let bar_type2 = BarType {
        instrument_id: instrument_id1,
        spec: bar_spec,
        aggregation_source: AggregationSource::External,
    };
    let bar_type3 = BarType {
        instrument_id: instrument_id2,
        spec: bar_spec,
        aggregation_source: AggregationSource::External,
    };
    assert_eq!(bar_type1, bar_type1);
    assert_eq!(bar_type1, bar_type2);
    assert_ne!(bar_type1, bar_type3);
}

#[test]
fn test_bar_type_comparison() {
    let instrument_id1 = instrument("AUD/USD", "SIM");
    let instrument_id2 = instrument("GBP/USD", "SIM");
    let bar_spec = BarSpecification {
        step: 1,
        aggregation: BarAggregation::Minute,
        price_type: PriceType::Bid,
    };
    let bar_type1 = BarType {
        instrument_id: instrument_id1.clone(),
        spec: bar_spec,
        aggregation_source: AggregationSource::External,
    };
    let bar_type2 = BarType {
        instrument_id: instrument_id1,
        spec: bar_spec,
        aggregation_source: AggregationSource::External,
    };
    let bar_type3 = BarType {
        instrument_id: instrument_id2,
        spec: bar_spec,
        aggregation_source: AggregationSource::External,
    };

    assert!(bar_type1 <= bar_type2);
    assert!(bar_type1 < bar_type3);
    assert!(bar_type3 > bar_type1);
    assert!(bar_type3 >= bar_type1);
}

#[test]
fn test_bar_spec_ordering() {
    let a = BarSpecification {
        step: 1,
        aggregation: BarAggregation::Minute,
        price_type: PriceType::Bid,
    };
    let b = BarSpecification {
        step: 1,
        aggregation: BarAggregation::Minute,
        price_type: PriceType::Ask,
    };
    let c = BarSpecification {
        step: 2,
        aggregation: BarAggregation::Tick,
        price_type: PriceType::Bid,
    };
    assert!(a < b);
    assert!(a < c);
    assert!(b < c);
    assert_eq!(a.partial_cmp(&a), Some(std::cmp::Ordering::Equal));
}

#[test]
fn test_enum_token_round_trips() {
    let methods = [
        (BarAggregation::Tick, "TICK"),
        (BarAggregation::Volume, "VOLUME"),
        (BarAggregation::Value, "VALUE"),
        (BarAggregation::TickRun, "TICK_RUN"),
        (BarAggregation::VolumeRun, "VOLUME_RUN"),
        (BarAggregation::ValueRun, "VALUE_RUN"),
        (BarAggregation::Millisecond, "MILLISECOND"),
        (BarAggregation::Second, "SECOND"),
        (BarAggregation::Minute, "MINUTE"),
        (BarAggregation::Hour, "HOUR"),
        (BarAggregation::Day, "DAY"),
        (BarAggregation::Week, "WEEK"),
        (BarAggregation::Month, "MONTH"),
        (BarAggregation::Year, "YEAR"),
    ];
    for (m, t) in methods {
        assert_eq!(m.as_str(), t);
        assert_eq!(BarAggregation::from_token(t), Some(m));
    }
    assert_eq!(BarAggregation::from_token("INVALID"), None);
    assert_eq!(PriceType::from_token("MID"), Some(PriceType::Mid));
    assert_eq!(PriceType::from_token("mid"), None);
    assert_eq!(
        AggregationSource::from_token("INTERNAL"),
        Some(AggregationSource::Internal)
    );
}

#[test]
fn test_bar_type_hash_consistency() {
    let bar_type1 = BarType::from_str("AUDUSD.SIM-1-MINUTE-BID-EXTERNAL").unwrap();
    let bar_type2 = BarType::from_str("AUDUSD.SIM-1-MINUTE-BID-EXTERNAL").unwrap();
    let bar_type3 = BarType::from_str("AUDUSD.SIM-2-MINUTE-BID-EXTERNAL").unwrap();
    assert_eq!(bar_type1, bar_type2);
    assert_eq!(bar_type1.hash_u64(), bar_type2.hash_u64());
    assert_eq!(bar_type1.spec.hash_u64(), bar_type2.spec.hash_u64());
    assert_eq!(
        bar_type1.instrument_id.hash_u64(),
        bar_type2.instrument_id.hash_u64()
    );
    assert_ne!(bar_type1, bar_type3);
}
