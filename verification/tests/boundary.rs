use domainx::{
    validate_order, validate_quantity_balance, Decimal, DecimalError, InstrumentKey, Order,
    OrderSide, OrderStatus, OrderType, TimeInForce, ValidationError,
};

fn valid_limit() -> Order {
    Order {
        order_id: "o1".into(),
        instrument: InstrumentKey { exchange: "binance".into(), symbol: "BTCUSDT".into() },
        side: OrderSide::Buy,
        order_type: OrderType::Limit,
        status: OrderStatus::New,
        price: Some(Decimal::new(50000, 0)),
        stop_price: None,
        quantity: Decimal::new(2, 0),
        filled_quantity: Decimal::new(1, 0),
        remaining_quantity: Decimal::new(1, 0),
        avg_fill_price: None,
        time_in_force: TimeInForce::Gtc,
        created_at: 1_700_000_000_000,
        updated_at: 1_700_000_001_000,
        client_order_id: None,
    }
}

fn max() -> Decimal {
    Decimal::new(i128::MAX, 0)
}

#[test]
fn quantity_balance_overflow_max_plus_one() {
    let err = validate_quantity_balance(max(), max(), Decimal::new(1, 0))
        .expect_err("MAX + 1 must overflow");
    assert!(matches!(err, ValidationError::Quantity(..)), "overflow must be Quantity, got {err:?}");
}

#[test]
fn quantity_overflow_preserves_decimal_error_source() {
    let err = validate_quantity_balance(max(), max(), Decimal::new(1, 0))
        .expect_err("MAX + 1 must overflow");
    let src = match &err {
        ValidationError::Quantity(_, source) => source.clone(),
        _ => None,
    };
    let dec_err = src.expect("overflow must carry its source");
    assert_eq!(dec_err, DecimalError::RepresentationOverflow);
}

#[test]
fn empty_instrument_key_is_not_validated_adr001() {
    let mut order = valid_limit();
    order.instrument = InstrumentKey { exchange: String::new(), symbol: String::new() };
    validate_order(&order).expect("an empty InstrumentKey is not validated");
}
