use std::collections::hash_map::DefaultHasher;
use std::hash::{Hash, Hasher};

use domainx::{
    aggregate_commissions_by_asset, validate_created_before_updated, validate_gtd_deadline,
    validate_non_negative_quantities, validate_order, validate_order_prices,
    validate_quantity_balance, Commission, Decimal, DecimalError, InstrumentKey, Order, OrderSide,
    OrderStatus, OrderType, TimeInForce, ValidationError,
};

fn h<T: Hash>(t: &T) -> u64 {
    let mut s = DefaultHasher::new();
    t.hash(&mut s);
    s.finish()
}

fn order(order_type: OrderType, price: Option<Decimal>, stop_price: Option<Decimal>) -> Order {
    Order {
        order_id: "o-law".into(),
        instrument: InstrumentKey { exchange: "binance".into(), symbol: "BTCUSDT".into() },
        side: OrderSide::Sell,
        order_type,
        status: OrderStatus::New,
        price,
        stop_price,
        quantity: Decimal::new(15000, 4),
        filled_quantity: Decimal::new(5, 1),
        remaining_quantity: Decimal::new(1, 0),
        avg_fill_price: None,
        time_in_force: TimeInForce::Gtc,
        created_at: 1_700_000_000_000,
        updated_at: 1_700_000_000_000,
        client_order_id: None,
    }
}

fn usdt(m: i128, s: u8) -> Commission {
    Commission { amount: Decimal::new(m, s), asset: "USDT".into() }
}

#[test]
fn balanced_triples_pass_both_quantity_checks() {
    for filled in [0i128, 1, 7, 9_999] {
        for remaining in [0i128, 3, 9_999] {
            let f = Decimal::new(filled, 2);
            let r = Decimal::new(remaining, 0);
            let q = f.checked_add(r).unwrap();
            assert!(validate_non_negative_quantities(q, f, r).is_ok());
            assert!(validate_quantity_balance(q, f, r).is_ok());
        }
    }
}

#[test]
fn excess_quantity_is_a_quantity_error() {
    for delta in [1i128, 2, 99] {
        let f = Decimal::new(40, 1);
        let r = Decimal::new(3, 0);
        let q = f.checked_add(r).unwrap().checked_add(Decimal::new(delta, 0)).unwrap();
        let err = validate_quantity_balance(q, f, r).unwrap_err();
        assert!(matches!(err, ValidationError::Quantity(_, None)), "got {err:?}");
    }
}

#[test]
fn gtd_before_created_is_a_time_error() {
    for (created, early_by) in [(1_000i64, 1i64), (2_000_000_000, 49_999), (5_000, 4_999)] {
        let err = validate_gtd_deadline(&TimeInForce::Gtd(created - early_by), created).unwrap_err();
        assert!(matches!(err, ValidationError::Time(_)), "got {err:?}");
    }
    assert!(validate_gtd_deadline(&TimeInForce::Gtc, i64::MAX).is_ok());
    assert!(validate_gtd_deadline(&TimeInForce::Fok, i64::MAX).is_ok());
}

#[test]
fn created_after_updated_is_a_time_error() {
    assert!(matches!(validate_created_before_updated(10, 9), Err(ValidationError::Time(_))));
    assert!(validate_created_before_updated(10, 10).is_ok());
    assert!(validate_created_before_updated(10, 11).is_ok());
}

#[test]
fn order_prices_follow_the_order_type() {
    let p = Some(Decimal::new(50000, 2));
    assert!(validate_order_prices(&order(OrderType::Limit, p, None)).is_ok());
    assert!(validate_order_prices(&order(OrderType::Market, None, None)).is_ok());
    assert!(validate_order_prices(&order(OrderType::StopMarket, None, p)).is_ok());
    assert!(validate_order_prices(&order(OrderType::StopLimit, p, p)).is_ok());
    for bad in [
        order(OrderType::Limit, None, None),
        order(OrderType::Market, p, None),
        order(OrderType::StopMarket, None, None),
        order(OrderType::StopLimit, None, p),
        order(OrderType::StopLimit, p, None),
        order(OrderType::Limit, Some(Decimal::zero()), None),
        order(OrderType::Limit, Some(Decimal::new(-1, 3)), None),
        order(OrderType::StopMarket, None, Some(Decimal::new(0, 4))),
    ] {
        let err = validate_order_prices(&bad).unwrap_err();
        assert!(matches!(err, ValidationError::Price(_)), "got {err:?}");
    }
}

#[test]
fn validate_order_reports_the_first_failing_check() {
    let p = Some(Decimal::new(50000, 2));
    assert!(validate_order(&order(OrderType::Limit, p, None)).is_ok());

    let mut o = order(OrderType::Limit, None, None);
    o.filled_quantity = Decimal::new(-5, 1);
    assert!(matches!(validate_order(&o), Err(ValidationError::Quantity(_, None))));

    let mut o = order(OrderType::Limit, None, None);
    o.filled_quantity = Decimal::new(i128::MAX, 0);
    assert!(matches!(
        validate_order(&o),
        Err(ValidationError::Quantity(_, Some(DecimalError::RepresentationOverflow)))
    ));

    let mut o = order(OrderType::Limit, None, None);
    o.remaining_quantity = Decimal::new(2, 0);
    assert!(matches!(validate_order(&o), Err(ValidationError::Quantity(_, None))));

    let o = order(OrderType::Limit, None, None);
    assert!(matches!(validate_order(&o), Err(ValidationError::Price(_))));

    let mut o = order(OrderType::Limit, p, None);
    o.updated_at = o.created_at - 1;
    o.time_in_force = TimeInForce::Gtd(0);
    assert!(matches!(validate_order(&o), Err(ValidationError::Time(_))));

    let mut o = order(OrderType::Limit, p, None);
    o.time_in_force = TimeInForce::Gtd(o.created_at - 1);
    assert!(matches!(validate_order(&o), Err(ValidationError::Time(_))));
}

#[test]
fn instrument_does_not_change_validation() {
    let p = Some(Decimal::new(50000, 2));
    let a = order(OrderType::Limit, p, None);
    let mut b = a.clone();
    b.instrument = InstrumentKey { exchange: "okx".into(), symbol: "BTC-USDT".into() };
    assert_eq!(validate_order(&a), validate_order(&b));
    let a = order(OrderType::Market, p, None);
    let mut b = a.clone();
    b.instrument = InstrumentKey { exchange: String::new(), symbol: String::new() };
    assert_eq!(validate_order(&a), validate_order(&b));
}

#[test]
fn aggregation_sorts_assets_and_sums_per_asset() {
    let items = [
        Commission { amount: Decimal::new(10, 4), asset: "BNB".into() },
        Commission { amount: Decimal::new(5, 4), asset: "BNB".into() },
        Commission { amount: Decimal::new(125, 2), asset: "USDT".into() },
        Commission { amount: Decimal::new(3, 0), asset: "AAA".into() },
        Commission { amount: Decimal::new(-1, 1), asset: "AAA".into() },
    ];
    let out = aggregate_commissions_by_asset(&items).unwrap();
    let assets: Vec<&str> = out.iter().map(|c| c.asset.as_str()).collect();
    assert_eq!(assets, vec!["AAA", "BNB", "USDT"]);
    assert_eq!(out[0].amount.mantissa(), 29);
    assert_eq!(out[0].amount.scale(), 1);
    assert_eq!(out[1].amount.mantissa(), 15);
    assert_eq!(out[1].amount.scale(), 4);
    assert_eq!(out[2].amount.mantissa(), 125);
    assert_eq!(out[2].amount.scale(), 2);
}

#[test]
fn aggregation_orders_assets_as_str_does() {
    let one = Decimal::new(1, 0);
    let items = [
        Commission { amount: one, asset: "b".into() },
        Commission { amount: one, asset: "ab".into() },
        Commission { amount: one, asset: "é".into() },
        Commission { amount: one, asset: "a".into() },
        Commission { amount: one, asset: "B".into() },
        Commission { amount: one, asset: "".into() },
        Commission { amount: one, asset: "a".into() },
    ];
    let out = aggregate_commissions_by_asset(&items).unwrap();
    let assets: Vec<&str> = out.iter().map(|c| c.asset.as_str()).collect();
    let mut expected: Vec<&str> = items.iter().map(|c| c.asset.as_str()).collect();
    expected.sort();
    expected.dedup();
    assert_eq!(assets, expected);
    assert_eq!(out.iter().find(|c| c.asset == "a").unwrap().amount, Decimal::new(2, 0));
}

#[test]
fn aggregation_overflow_on_any_asset_fails() {
    let items = [
        Commission { amount: Decimal::new(1, 0), asset: "BTC".into() },
        usdt(i128::MAX, 0),
        Commission { amount: Decimal::new(1, 0), asset: "ETH".into() },
        usdt(1, 0),
    ];
    let err = aggregate_commissions_by_asset(&items).unwrap_err();
    assert!(matches!(err, ValidationError::Quantity(_, Some(DecimalError::RepresentationOverflow))));
}

#[test]
fn aggregate_same_asset_associative() {
    let amounts = [
        Decimal::new(0, 0),
        Decimal::new(7, 3),
        Decimal::new(9_999, 0),
        Decimal::new(i128::MAX, 0),
        Decimal::new(i128::MAX - 10, 0),
        Decimal::new(12, 18),
    ];
    for a in amounts {
        for b in amounts {
            for c in amounts {
                let left = aggregate_commissions_by_asset(&[usdt_d(a), usdt_d(b)]).and_then(|ab| {
                    let mut items = ab;
                    items.push(usdt_d(c));
                    aggregate_commissions_by_asset(&items)
                });
                let right = aggregate_commissions_by_asset(&[usdt_d(b), usdt_d(c)]).and_then(|bc| {
                    let mut items = vec![usdt_d(a)];
                    items.extend(bc);
                    aggregate_commissions_by_asset(&items)
                });
                match (left, right) {
                    (Ok(l), Ok(r)) => {
                        assert_eq!(l.len(), 1);
                        assert_eq!(l[0].amount.mantissa(), r[0].amount.mantissa());
                        assert_eq!(l[0].amount.scale(), r[0].amount.scale());
                    }
                    (Err(el), Err(er)) => {
                        assert!(matches!(el, ValidationError::Quantity(..)));
                        assert!(matches!(er, ValidationError::Quantity(..)));
                    }
                    (l, r) => panic!("sides disagree: {l:?} vs {r:?}"),
                }
            }
        }
    }
}

fn usdt_d(amount: Decimal) -> Commission {
    Commission { amount, asset: "USDT".into() }
}

#[test]
fn checked_add_is_commutative() {
    let values = [Decimal::new(1, 0), Decimal::new(-25, 2), Decimal::new(i128::MAX, 0), Decimal::new(3, 18)];
    for a in values {
        for b in values {
            assert_eq!(a.checked_add(b).map(|d| (d.mantissa(), d.scale())), b.checked_add(a).map(|d| (d.mantissa(), d.scale())));
        }
    }
}

#[test]
fn aggregation_overflow_message_names_asset_total_and_amount() {
    let items = [usdt(5, 1), usdt(i128::MAX - 5, 1), usdt(3, 1)];
    let err = aggregate_commissions_by_asset(&items).unwrap_err();
    match err {
        ValidationError::Quantity(msg, Some(DecimalError::RepresentationOverflow)) => {
            let current = Decimal::new(i128::MAX, 1).to_string();
            assert_eq!(
                msg,
                format!(
                    "佣金按资产 USDT 汇总溢出: current({current}) + amount(0.3)：十进制表示范围不足（中间值溢出）"
                )
            );
        }
        other => panic!("unexpected {other:?}"),
    }
}

#[test]
fn decimal_and_error_texts() {
    assert_eq!(Decimal::new(1050, 2).to_string(), "10.5");
    assert_eq!(Decimal::new(-125, 2).to_string(), "-1.25");
    assert_eq!(Decimal::new(100, 0).to_string(), "100");
    assert_eq!(DecimalError::RepresentationOverflow.to_string(), "十进制表示范围不足（中间值溢出）");
    assert_eq!(DecimalError::Parse("x".into()).to_string(), "十进制解析失败: x");
}

#[test]
fn equal_decimals_hash_alike() {
    assert_eq!(h(&Decimal::new(1, 0)), h(&Decimal::new(100, 2)));
    assert_eq!(h(&Decimal::new(0, 0)), h(&Decimal::new(0, 7)));
    assert_eq!(h(&usdt(15, 1)), h(&usdt(150, 2)));
}

#[test]
fn aggregation_ignores_input_order() {
    let items = vec![
        Commission { amount: Decimal::new(10, 4), asset: "BNB".into() },
        usdt(125, 2),
        Commission { amount: Decimal::new(5, 4), asset: "BNB".into() },
        usdt(-3, 0),
        Commission { amount: Decimal::new(7, 0), asset: "ETH".into() },
    ];
    let base = aggregate_commissions_by_asset(&items).unwrap();
    let n = items.len();
    for rot in 0..n {
        let mut permuted = items.clone();
        permuted.rotate_left(rot);
        let out = aggregate_commissions_by_asset(&permuted).unwrap();
        assert_eq!(out.len(), base.len());
        for (a, b) in out.iter().zip(base.iter()) {
            assert_eq!(a.asset, b.asset);
            assert_eq!(a.amount.mantissa(), b.amount.mantissa());
            assert_eq!(a.amount.scale(), b.amount.scale());
        }
        permuted.reverse();
        let out = aggregate_commissions_by_asset(&permuted).unwrap();
        for (a, b) in out.iter().zip(base.iter()) {
            assert_eq!(a.asset, b.asset);
            assert_eq!(a.amount.mantissa(), b.amount.mantissa());
            assert_eq!(a.amount.scale(), b.amount.scale());
        }
    }
}

#[test]
fn try_new_rejects_scales_above_the_maximum() {
    let d = Decimal::try_new(-42, 18).unwrap();
    assert_eq!((d.mantissa(), d.scale()), (-42, 18));
    let err = Decimal::try_new(1, 19).unwrap_err();
    assert_eq!(err, DecimalError::ScaleOutOfRange { scale: 19, max: 18 });
    assert_eq!(err.to_string(), "十进制 scale 19 超过上限 18");
    assert_eq!(
        DecimalError::ScaleOutOfRange { scale: 255, max: 7 }.to_string(),
        "十进制 scale 255 超过上限 7"
    );
}

#[test]
fn validation_error_message_is_the_carried_text() {
    let err = validate_created_before_updated(10, 9).unwrap_err();
    assert_eq!(err.message(), "updated_at must not precede created_at");
    let err = validate_quantity_balance(Decimal::new(1, 0), Decimal::zero(), Decimal::zero()).unwrap_err();
    assert_eq!(err.message(), "filled + remaining must equal quantity");
}
