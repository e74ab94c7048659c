use cedro::protocol::enums::{AssetGroupPhase, AssetType, MarketCode, Side, TradeAggressor};

#[test]
fn market_code_known_and_unknown() {
    assert_eq!(MarketCode::from_code(1), MarketCode::Bovespa);
    assert_eq!(MarketCode::from_code(64), MarketCode::TesouroDireto);
    assert_eq!(MarketCode::from_code(999), MarketCode::Unknown(999));
}

#[test]
fn asset_type_full_table() {
    assert_eq!(AssetType::from_code(2), AssetType::Option);
    assert_eq!(AssetType::from_code(7), AssetType::Future);
    assert_eq!(AssetType::from_code(22), AssetType::TesouroDireto);
    // Index 14 is not listed.
    assert_eq!(AssetType::from_code(14), AssetType::Unknown(14));
}

#[test]
fn phase_one_and_two_byte_codes() {
    assert_eq!(AssetGroupPhase::from_code(b"A"), AssetGroupPhase::Open);
    assert_eq!(AssetGroupPhase::from_code(b"PN"), AssetGroupPhase::PreClose);
    assert_eq!(AssetGroupPhase::from_code(b"NO"), AssetGroupPhase::Closed);
    assert!(matches!(
        AssetGroupPhase::from_code(b"ZZ"),
        AssetGroupPhase::Unknown(_),
    ));
}

#[test]
fn side_roundtrip() {
    assert_eq!(Side::from_byte(b'A'), Some(Side::Buy));
    assert_eq!(Side::from_byte(b'V'), Some(Side::Sell));
    assert_eq!(Side::from_byte(b'X'), None);
    assert_eq!(Side::Buy.as_byte(), b'A');
}

#[test]
fn aggressor_codes() {
    assert_eq!(TradeAggressor::from_byte(b'A'), TradeAggressor::Buyer);
    assert_eq!(TradeAggressor::from_byte(b'V'), TradeAggressor::Seller);
    assert_eq!(TradeAggressor::from_byte(b'I'), TradeAggressor::Undefined);
}
