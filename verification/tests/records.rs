use nautilus_model::bar::{Bar, BarSpecification, BarType};
use nautilus_model::entry::PriceLevelEntry;
use nautilus_model::enums::{AggregationSource, BarAggregation, PriceType};
use nautilus_model::identifiers::InstrumentId;
use nautilus_model::types::{Price, Quantity};

fn stub_bar() -> Bar {
    let instrument_id = InstrumentId::new("AUDUSD", "SIM").unwrap();
    let bar_spec = BarSpecification {
        step: 1,
        aggregation: BarAggregation::Minute,
        price_type: PriceType::Bid,
    };
    let bar_type = BarType {
        instrument_id,
        spec: bar_spec,
        aggregation_source: AggregationSource::External,
    };
    Bar {
        bar_type,
        open: Price::from_raw(100001, 5),
        high: Price::from_raw(100004, 5),
        low: Price::from_raw(100002, 5),
        close: Price::from_raw(100003, 5),
        volume: Quantity::from_raw(100000, 0),
        ts_event: 0,
        ts_init: 1,
    }
}

#[test]
fn instantiate() {
    let entry = PriceLevelEntry::new(
        Price::from_raw(105000, 1),
        Quantity::from_raw(5100, 1),
        1,
    );
    assert_eq!(entry.price.to_string(), "10500.0");
    assert_eq!(entry.quantity.to_string(), "510.0");
    assert_eq!(entry.version, 1);
}

#[test]
fn update() {
    let mut entry = PriceLevelEntry::new(
        Price::from_raw(105000, 1),
        Quantity::from_raw(5100, 1),
        1,
    );
    entry.update(Quantity::from_raw(6000, 1), 2);
    assert_eq!(entry.price.to_string(), "10500.0");
    assert_eq!(entry.quantity.to_string(), "600.0");
    assert_eq!(entry.version, 2);
}

#[test]
fn update_twice_is_idempotent() {
    let mut once = PriceLevelEntry::new(Price::from_raw(105000, 1), Quantity::from_raw(5100, 1), 1);
    once.update(Quantity::from_raw(6000, 1), 2);
    let mut twice = once;
    twice.update(Quantity::from_raw(6000, 1), 2);
    assert_eq!(once, twice);
}

#[test]
fn test_price_rendering() {
    assert_eq!(Price::from_raw(100001, 5).to_string(), "1.00001");
    assert_eq!(Price::from_raw(100, 0).to_string(), "100");
    assert_eq!(Price::from_raw(-5, 1).to_string(), "-0.5");
    assert_eq!(Price::from_raw(-1234, 2).to_string(), "-12.34");
    assert_eq!(Price::from_raw(0, 2).to_string(), "0.00");
    assert_eq!(Quantity::from_raw(100000, 0).to_string(), "100000");
    assert_eq!(Quantity::from_raw(7, 3).to_string(), "0.007");
}

#[test]
fn test_precision_cap() {
    assert!(Price::from_raw_checked(1, 9).is_some());
    assert!(Price::from_raw_checked(1, 10).is_none());
    assert!(Quantity::from_raw_checked(1, 10).is_none());
}

#[test]
fn test_bar_equality() {
    let bar1 = stub_bar();
    let mut bar2 = stub_bar();
    bar2.open = Price::from_raw(100000, 5);
    assert_eq!(bar1, bar1.clone());
    assert_ne!(bar1, bar2);
}

#[test]
fn test_bar_display() {
    let bar = stub_bar();
    assert_eq!(
        bar.to_string(),
        "AUDUSD.SIM-1-MINUTE-BID-EXTERNAL,1.00001,1.00004,1.00002,1.00003,100000,0"
    );
}

#[test]
fn test_get_metadata() {
    let bar = stub_bar();
    let metadata = Bar::get_metadata(&bar.bar_type, 5, 0);
    assert_eq!(metadata.len(), 4);
    assert_eq!(metadata[0].0, "bar_type");
    assert_eq!(metadata[0].1, "AUDUSD.SIM-1-MINUTE-BID-EXTERNAL");
    assert_eq!(metadata[1].0, "instrument_id");
    assert_eq!(metadata[1].1, "AUDUSD.SIM");
    assert_eq!(metadata[2].0, "price_precision");
    assert_eq!(metadata[2].1, "5");
    assert_eq!(metadata[3].0, "size_precision");
    assert_eq!(metadata[3].1, "0");
}

#[test]
fn test_json_document_shape() {
    let bar = stub_bar();
    let expected = "{\"type\":\"Bar\",\"bar_type\":\"AUDUSD.SIM-1-MINUTE-BID-EXTERNAL\",\"open\":{\"raw\":100001,\"precision\":5},\"high\":{\"raw\":100004,\"precision\":5},\"low\":{\"raw\":100002,\"precision\":5},\"close\":{\"raw\":100003,\"precision\":5},\"volume\":{\"raw\":100000,\"precision\":0},\"ts_event\":0,\"ts_init\":1}";
    assert_eq!(bar.to_json_string(), expected);
}

#[test]
fn test_json_serialization() {
    let bar = stub_bar();
    let serialized = bar.as_json_bytes();
    let deserialized = Bar::from_json_bytes(serialized).unwrap();
    assert_eq!(deserialized, bar);
}

#[test]
fn test_compact_serialization() {
    let bar = stub_bar();
    let serialized = bar.as_compact_bytes();
    let deserialized = Bar::from_compact_bytes(&serialized).unwrap();
    assert_eq!(deserialized, bar);
}

#[test]
fn test_compact_serialization_negative_price() {
    let mut bar = stub_bar();
    bar.low = Price::from_raw(-250, 2);
    let deserialized = Bar::from_compact_bytes(&bar.as_compact_bytes()).unwrap();
    assert_eq!(deserialized, bar);
    let deserialized2 = Bar::from_json_bytes(bar.as_json_bytes()).unwrap();
    assert_eq!(deserialized2, bar);
}

#[test]
fn test_decode_errors_are_boundary_errors() {
    assert!(Bar::from_json_bytes(b"{}".to_vec()).is_err());
    assert!(Bar::from_json_bytes(vec![0xff, 0xfe]).is_err());
    assert!(Bar::from_compact_bytes(&vec![1, 2, 3]).is_err());
    let bar = stub_bar();
    let mut bytes = bar.as_compact_bytes();
    bytes.pop();
    assert!(Bar::from_compact_bytes(&bytes).is_err());
}

#[test]
fn test_bar_hash_consistency() {
    let bar1 = stub_bar();
    let bar2 = stub_bar();
    assert_eq!(bar1, bar2);
    assert_eq!(bar1.hash_u64(), bar2.hash_u64());
    let mut bar3 = stub_bar();
    bar3.ts_init = 7;
    assert_ne!(bar1, bar3);
}
