use domainx::OrderStatus;

fn legal_edges() -> &'static [(OrderStatus, OrderStatus)] {
    &[
        (OrderStatus::New, OrderStatus::PartiallyFilled),
        (OrderStatus::PartiallyFilled, OrderStatus::Filled),
    ]
}

fn illegal_edges() -> &'static [(OrderStatus, OrderStatus)] {
    &[
        (OrderStatus::Filled, OrderStatus::New),
        (OrderStatus::Canceled, OrderStatus::PartiallyFilled),
        (OrderStatus::Rejected, OrderStatus::Filled),
    ]
}

fn table_allows(from: &OrderStatus, to: &OrderStatus) -> bool {
    legal_edges().iter().any(|(a, b)| a == from && b == to)
}

#[test]
fn legal_chain_new_partial_filled() {
    assert!(table_allows(&OrderStatus::New, &OrderStatus::PartiallyFilled));
    assert!(table_allows(&OrderStatus::PartiallyFilled, &OrderStatus::Filled));
}

#[test]
fn illegal_edges_are_rejected() {
    assert!(illegal_edges().len() >= 3, "at least 3 illegal edges, got {}", illegal_edges().len());
    for (from, to) in illegal_edges() {
        assert!(!table_allows(from, to), "illegal edge {from:?}->{to:?} is in the legal table");
    }
}
