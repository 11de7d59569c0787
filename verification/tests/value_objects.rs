use domainx::{
    Commission, Decimal, ExecType, ExecutionReport, InstrumentKey, Order, OrderSide, OrderStatus,
    OrderType, Portfolio, Position, PositionDirection, TimeInForce, Trade,
};

fn ik(sym: &str) -> InstrumentKey {
    InstrumentKey { exchange: "binance".into(), symbol: sym.into() }
}

#[test]
fn test_order_creation() {
    let order = Order {
        order_id: "abc123".into(),
        instrument: ik("BTCUSDT"),
        side: OrderSide::Buy,
        order_type: OrderType::Limit,
        status: OrderStatus::New,
        price: Some(Decimal::new(50000, 0)),
        stop_price: None,
        quantity: Decimal::new(1, 0),
        filled_quantity: Decimal::zero(),
        remaining_quantity: Decimal::new(1, 0),
        avg_fill_price: None,
        time_in_force: TimeInForce::Gtc,
        created_at: 1_000_000_000_000,
        updated_at: 1_000_000_000_000,
        client_order_id: Some("my-order".into()),
    };
    assert_eq!(order.order_id, "abc123");
    assert_eq!(order.side, OrderSide::Buy);
    assert_eq!(order.status, OrderStatus::New);
}

#[test]
fn test_position_lifecycle() {
    let pos = Position {
        position_id: "pos1".into(),
        instrument: ik("ETHUSDT"),
        direction: PositionDirection::Long,
        status: None,
        quantity: Decimal::new(10, 0),
        entry_price: Decimal::new(3000, 0),
        current_price: Decimal::new(3100, 0),
        unrealized_pnl: Decimal::new(1000, 0),
        realized_pnl: Decimal::zero(),
        created_at: 1_000_000_000_000,
        updated_at: 1_000_000_001_000,
    };
    assert_eq!(pos.direction, PositionDirection::Long);
    assert!(pos.unrealized_pnl > Decimal::zero());
}

#[test]
fn test_portfolio() {
    let portfolio = Portfolio {
        portfolio_id: "pf1".into(),
        account_id: "acc1".into(),
        positions: vec![Position {
            position_id: "pos1".into(),
            instrument: ik("BTCUSDT"),
            direction: PositionDirection::Long,
            status: None,
            quantity: Decimal::new(1, 0),
            entry_price: Decimal::new(50000, 0),
            current_price: Decimal::new(51000, 0),
            unrealized_pnl: Decimal::new(1000, 0),
            realized_pnl: Decimal::zero(),
            created_at: 1_000_000_000_000,
            updated_at: 1_000_000_001_000,
        }],
        total_unrealized_pnl: Decimal::new(1000, 0),
        total_realized_pnl: Decimal::zero(),
        total_commission: Decimal::new(50, 0),
        commissions: vec![Commission { amount: Decimal::new(50, 0), asset: "USDT".into() }],
        total_trades: 5,
        updated_at: 1_000_000_001_000,
    };
    assert_eq!(portfolio.positions.len(), 1);
}

#[test]
fn trade_and_report_hold_their_fields() {
    let trade = Trade {
        trade_id: "t1".into(),
        order_id: "o1".into(),
        instrument: ik("BTCUSDT"),
        side: OrderSide::Buy,
        price: Decimal::new(50000, 0),
        quantity: Decimal::new(1, 0),
        commission: Some(Commission { amount: Decimal::new(10, 0), asset: "BTC".into() }),
        executed_at: 1_000_000_000_000,
        is_maker: Some(true),
    };
    assert_eq!(trade.clone(), trade);
    let report = ExecutionReport {
        report_id: "r1".into(),
        order_id: "o1".into(),
        exec_type: ExecType::Trade,
        order_status: OrderStatus::PartiallyFilled,
        instrument: ik("BTCUSDT"),
        side: OrderSide::Buy,
        order_type: OrderType::Limit,
        price: Some(Decimal::new(50000, 0)),
        quantity: Decimal::new(1, 0),
        last_filled_price: Some(Decimal::new(50000, 0)),
        last_filled_quantity: Some(Decimal::new(5, 1)),
        cumulative_filled_quantity: Decimal::new(5, 1),
        remaining_quantity: Decimal::new(5, 1),
        commission: Some(Commission { amount: Decimal::new(1, 2), asset: "BNB".into() }),
        trade_id: Some("t1".into()),
        reject_reason: None,
        occurred_at: 1_000_000_000_000,
    };
    assert_eq!(report.exec_type, ExecType::Trade);
    // 0.50 and 0.5 are the same quantity.
    assert_eq!(report.last_filled_quantity, Some(Decimal::new(50, 2)));
}

#[test]
fn decimal_equality_and_order_are_numeric() {
    assert_eq!(Decimal::new(1, 0), Decimal::new(10, 1));
    assert_eq!(Decimal::new(10, 1), Decimal::new(100, 2));
    assert_eq!(Decimal::new(0, 0), Decimal::new(0, 5));
    assert_ne!(Decimal::new(1, 0), Decimal::new(1, 1));
    assert!(Decimal::new(1, 0) < Decimal::new(15, 1));
    assert!(Decimal::new(-5, 1) > Decimal::new(-1, 0));
    assert!(Decimal::new(i128::MAX, 0) > Decimal::new(i128::MAX, 18));
    assert!(Decimal::new(i128::MIN, 0) < Decimal::new(-1, 18));
}

#[test]
fn decimal_checked_add_aligns_scales() {
    let sum = Decimal::new(1, 0).checked_add(Decimal::new(25, 2)).unwrap();
    assert_eq!(sum.mantissa(), 125);
    assert_eq!(sum.scale(), 2);
    let sum = Decimal::new(-3, 4).checked_add(Decimal::new(7, 1)).unwrap();
    assert_eq!(sum.mantissa(), 6997);
    assert_eq!(sum.scale(), 4);
    assert!(Decimal::new(i128::MAX, 0).checked_add(Decimal::new(1, 0)).is_err());
    // Aligning i128::MAX to scale 1 already overflows.
    assert_eq!(
        Decimal::new(i128::MAX, 0).checked_add(Decimal::new(0, 1)),
        Err(domainx::DecimalError::RepresentationOverflow)
    );
}
