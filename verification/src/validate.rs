//! Explicit, pure validation of order fields against each other.
use vstd::prelude::*;

use crate::decimal::{
    lemma_compare_with_zero, lemma_same_value_cross, lemma_same_value_reflexive, pow10, lemma_sum_exceeds, lemma_sum_keeps_sign,
    same_value, sum_model, Decimal, DecimalError,
};
use crate::{InstrumentKey, Order, OrderType, TimeInForce, Timestamp};

verus! {

/// Why a value object failed validation.
#[derive(Debug, Clone, PartialEq, Eq)]
pub enum ValidationError {
    /// A quantity is negative or the quantities do not balance; carries the
    /// decimal error when the check itself overflowed.
    Quantity(String, Option<DecimalError>),
    /// A price is missing, present where it may not be, or not positive.
    Price(String),
    /// Timestamps are out of order.
    Time(String),
}

/// The message a validation error carries.
pub open spec fn error_message(e: ValidationError) -> Seq<char> {
    match e {
        ValidationError::Quantity(msg, _) => msg@,
        ValidationError::Price(msg) => msg@,
        ValidationError::Time(msg) => msg@,
    }
}

impl ValidationError {
    /// The message this error carries.
    pub fn message(&self) -> (r: String)
        ensures
            r@ == error_message(*self),
    {
        match self {
            ValidationError::Quantity(msg, _) => msg.clone(),
            ValidationError::Price(msg) => msg.clone(),
            ValidationError::Time(msg) => msg.clone(),
        }
    }
}

/// The decimal with view `d` is negative.
pub open spec fn negative(d: (int, nat)) -> bool {
    d.0 < 0
}

/// None of the three quantities is negative.
pub open spec fn quantities_non_negative(quantity: Decimal, filled: Decimal, remaining: Decimal) -> bool {
    !negative(quantity@) && !negative(filled@) && !negative(remaining@)
}

/// Whether `filled + remaining` is computable and equals `quantity`:
/// `None` when the sum overflows, else `Some(balanced)`.
pub open spec fn quantity_balance(quantity: Decimal, filled: Decimal, remaining: Decimal) -> Option<bool> {
    match sum_model(filled@, remaining@) {
        None => None,
        Some(total) => Some(same_value(total, quantity@)),
    }
}

/// The order type takes a limit price.
pub open spec fn takes_limit_price(t: OrderType) -> bool {
    t is Limit || t is StopLimit
}

/// The order type takes a stop (trigger) price.
pub open spec fn takes_stop_price(t: OrderType) -> bool {
    t is StopMarket || t is StopLimit
}

/// A price, where present, is strictly positive.
pub open spec fn positive_if_present(p: Option<Decimal>) -> bool {
    p matches Some(d) ==> d@.0 > 0
}

/// The prices of an order fit its type: limit and stop-limit orders carry a
/// limit price, market orders carry none, stop orders carry a stop price,
/// and every price given is positive.
pub open spec fn prices_valid(order: Order) -> bool {
    &&& takes_limit_price(order.order_type) ==> order.price is Some
    &&& order.order_type is Market ==> order.price is None
    &&& takes_stop_price(order.order_type) ==> order.stop_price is Some
    &&& positive_if_present(order.price)
    &&& positive_if_present(order.stop_price)
}

/// A good-till-date deadline precedes the creation time.
pub open spec fn gtd_before_creation(tif: TimeInForce, created_at: Timestamp) -> bool {
    tif matches TimeInForce::Gtd(deadline) && deadline < created_at
}

/// Rejects a negative quantity, filled quantity or remaining quantity.
pub fn validate_non_negative_quantities(
    quantity: Decimal,
    filled: Decimal,
    remaining: Decimal,
) -> (r: Result<(), ValidationError>)
    ensures
        r is Ok <==> quantities_non_negative(quantity, filled, remaining),
        r matches Err(e) ==> e matches ValidationError::Quantity(_, None),
        quantity@.0 < 0 ==> r is Err,
        filled@.0 < 0 ==> r is Err,
        remaining@.0 < 0 ==> r is Err,
        quantity@.0 >= 0 && filled@.0 >= 0 && remaining@.0 >= 0 ==> r is Ok,
{
    let zero = Decimal::zero();
    proof {
        lemma_compare_with_zero(quantity@.0, quantity@.1);
        lemma_compare_with_zero(filled@.0, filled@.1);
        lemma_compare_with_zero(remaining@.0, remaining@.1);
    }
    if quantity < zero {
        return Err(ValidationError::Quantity("quantity must not be negative".to_owned(), None));
    }
    if filled < zero {
        return Err(ValidationError::Quantity("filled quantity must not be negative".to_owned(), None));
    }
    if remaining < zero {
        return Err(
            ValidationError::Quantity("remaining quantity must not be negative".to_owned(), None),
        );
    }
    Ok(())
}

/// Requires `filled + remaining == quantity` (numerically). The sum is
/// checked: when it overflows the error carries the decimal error.
pub fn validate_quantity_balance(
    quantity: Decimal,
    filled: Decimal,
    remaining: Decimal,
) -> (r: Result<(), ValidationError>)
    ensures
        match quantity_balance(quantity, filled, remaining) {
            None => r matches Err(
                ValidationError::Quantity(_, Some(DecimalError::RepresentationOverflow)),
            ),
            Some(true) => r is Ok,
            Some(false) => r matches Err(ValidationError::Quantity(_, None)),
        },
        r is Ok <==> (sum_model(filled@, remaining@) matches Some(total) && total.0 * pow10(
            quantity@.1,
        ) == quantity@.0 * pow10(total.1)),
{
    proof {
        law_balance_is_numeric(quantity, filled, remaining);
    }
    match filled.checked_add(remaining) {
        Err(e) => Err(
            ValidationError::Quantity("filled + remaining overflows".to_owned(), Some(e)),
        ),
        Ok(total) => {
            if total == quantity {
                Ok(())
            } else {
                Err(
                    ValidationError::Quantity(
                        "filled + remaining must equal quantity".to_owned(),
                        None,
                    ),
                )
            }
        },
    }
}

/// Rejects an update time that precedes the creation time.
pub fn validate_created_before_updated(
    created_at: Timestamp,
    updated_at: Timestamp,
) -> (r: Result<(), ValidationError>)
    ensures
        r is Ok <==> created_at <= updated_at,
        r matches Err(e) ==> e is Time,
{
    if updated_at < created_at {
        Err(ValidationError::Time("updated_at must not precede created_at".to_owned()))
    } else {
        Ok(())
    }
}

/// Rejects a good-till-date deadline that precedes the creation time; a
/// deadline equal to it is allowed, and other policies always pass.
pub fn validate_gtd_deadline(tif: &TimeInForce, created_at: Timestamp) -> (r: Result<
    (),
    ValidationError,
>)
    ensures
        r is Ok <==> !gtd_before_creation(*tif, created_at),
        r matches Err(e) ==> e is Time,
        *tif matches TimeInForce::Gtd(deadline) ==> (r is Ok <==> created_at <= deadline),
        !(*tif is Gtd) ==> r is Ok,
{
    match tif {
        TimeInForce::Gtd(deadline) => {
            if *deadline < created_at {
                Err(ValidationError::Time("GTD deadline must not precede created_at".to_owned()))
            } else {
                Ok(())
            }
        },
        _ => Ok(()),
    }
}

/// Checks a price that is present for being strictly positive.
fn check_positive_price(price: &Option<Decimal>, what: &str) -> (r: Result<(), ValidationError>)
    ensures
        r is Ok <==> positive_if_present(*price),
        r matches Err(e) ==> e is Price,
{
    match price {
        Some(p) => {
            proof {
                lemma_compare_with_zero(p@.0, p@.1);
            }
            if Decimal::zero() < *p {
                Ok(())
            } else {
                let mut msg = what.to_owned();
                msg.append(" must be positive");
                Err(ValidationError::Price(msg))
            }
        },
        None => Ok(()),
    }
}

/// Checks the prices of an order against its type: limit and stop-limit
/// orders need a limit price, market orders may not have one, stop orders
/// need a stop price, and every price given must be positive.
pub fn validate_order_prices(order: &Order) -> (r: Result<(), ValidationError>)
    ensures
        r is Ok <==> prices_valid(*order),
        r matches Err(e) ==> e is Price,
        order.price matches Some(p) && p@.0 <= 0 ==> r is Err,
        order.stop_price matches Some(p) && p@.0 <= 0 ==> r is Err,
        (order.order_type is Limit || order.order_type is StopLimit) && order.price is None ==> r is Err,
        order.order_type is Market && order.price is Some ==> r is Err,
        (order.order_type is StopMarket || order.order_type is StopLimit) && order.stop_price is None
            ==> r is Err,
{
    let takes_limit = match order.order_type {
        OrderType::Limit | OrderType::StopLimit => true,
        _ => false,
    };
    let takes_stop = match order.order_type {
        OrderType::StopMarket | OrderType::StopLimit => true,
        _ => false,
    };
    let is_market = match order.order_type {
        OrderType::Market => true,
        _ => false,
    };
    if takes_limit && order.price.is_none() {
        return Err(ValidationError::Price("limit price is required".to_owned()));
    }
    if is_market && order.price.is_some() {
        return Err(ValidationError::Price("market order must not carry a limit price".to_owned()));
    }
    if takes_stop && order.stop_price.is_none() {
        return Err(ValidationError::Price("stop price is required".to_owned()));
    }
    check_positive_price(&order.price, "price")?;
    check_positive_price(&order.stop_price, "stop price")?;
    Ok(())
}

/// Which check an order fails first, in the order `validate_order` runs
/// them.
#[derive(Debug, Clone, Copy, PartialEq, Eq, Structural)]
pub enum OrderFault {
    /// A quantity is negative.
    NegativeQuantity,
    /// `filled + remaining` overflows.
    QuantityOverflow,
    /// `filled + remaining != quantity`.
    QuantityImbalance,
    /// The prices do not fit the order type.
    Price,
    /// `updated_at < created_at`.
    UpdatedBeforeCreated,
    /// The good-till-date deadline precedes `created_at`.
    DeadlineBeforeCreated,
}

/// The first check that `order` fails, or `None` when it passes them all.
/// The instrument key, ids, side, status and the remaining fields take no
/// part.
pub open spec fn order_fault(order: Order) -> Option<OrderFault> {
    if !quantities_non_negative(order.quantity, order.filled_quantity, order.remaining_quantity) {
        Some(OrderFault::NegativeQuantity)
    } else if quantity_balance(order.quantity, order.filled_quantity, order.remaining_quantity)
        is None {
        Some(OrderFault::QuantityOverflow)
    } else if quantity_balance(order.quantity, order.filled_quantity, order.remaining_quantity)
        == Some(false) {
        Some(OrderFault::QuantityImbalance)
    } else if !prices_valid(order) {
        Some(OrderFault::Price)
    } else if order.updated_at < order.created_at {
        Some(OrderFault::UpdatedBeforeCreated)
    } else if gtd_before_creation(order.time_in_force, order.created_at) {
        Some(OrderFault::DeadlineBeforeCreated)
    } else {
        None
    }
}

/// The validation result `r` reports `fault`: `Ok` for none, else the error
/// variant of that check.
pub open spec fn reports(r: Result<(), ValidationError>, fault: Option<OrderFault>) -> bool {
    match fault {
        None => r is Ok,
        Some(OrderFault::NegativeQuantity) => r matches Err(ValidationError::Quantity(_, None)),
        Some(OrderFault::QuantityOverflow) => r matches Err(
            ValidationError::Quantity(_, Some(DecimalError::RepresentationOverflow)),
        ),
        Some(OrderFault::QuantityImbalance) => r matches Err(ValidationError::Quantity(_, None)),
        Some(OrderFault::Price) => r matches Err(ValidationError::Price(_)),
        Some(OrderFault::UpdatedBeforeCreated) => r matches Err(ValidationError::Time(_)),
        Some(OrderFault::DeadlineBeforeCreated) => r matches Err(ValidationError::Time(_)),
    }
}

/// Runs every order check in turn and returns the first failure:
/// non-negative quantities, quantity balance, prices, timestamp order, and
/// the good-till-date deadline. The instrument key is not validated.
pub fn validate_order(order: &Order) -> (r: Result<(), ValidationError>)
    ensures
        reports(r, order_fault(*order)),
        r is Ok ==> order.quantity@.0 >= 0 && order.filled_quantity@.0 >= 0
            && order.remaining_quantity@.0 >= 0,
        r is Ok ==> (sum_model(order.filled_quantity@, order.remaining_quantity@) matches Some(
            total,
        ) && total.0 * pow10(order.quantity@.1) == order.quantity@.0 * pow10(total.1)),
        r is Ok ==> (order.price matches Some(p) ==> p@.0 > 0),
        r is Ok ==> (order.stop_price matches Some(p) ==> p@.0 > 0),
        r is Ok ==> order.created_at <= order.updated_at,
        r is Ok ==> (order.time_in_force matches TimeInForce::Gtd(deadline) ==> order.created_at
            <= deadline),
        order.updated_at < order.created_at ==> r is Err,
        (order.time_in_force matches TimeInForce::Gtd(deadline) && deadline < order.created_at)
            ==> r is Err,
{
    proof {
        law_passing_order_meets_every_constraint(*order);
    }
    validate_non_negative_quantities(
        order.quantity,
        order.filled_quantity,
        order.remaining_quantity,
    )?;
    validate_quantity_balance(order.quantity, order.filled_quantity, order.remaining_quantity)?;
    validate_order_prices(order)?;
    validate_created_before_updated(order.created_at, order.updated_at)?;
    validate_gtd_deadline(&order.time_in_force, order.created_at)?;
    Ok(())
}

/// Validation never looks at the instrument: two orders that differ only in
/// their instrument key fail the same check or both pass.
pub proof fn law_instrument_not_validated(order: Order, instrument: InstrumentKey)
    ensures
        order_fault(order) == order_fault(Order { instrument: instrument, ..order }),
{
}

/// Quantities built by checked addition balance: when `quantity` is
/// `filled + remaining` and neither part is negative, both quantity checks
/// pass.
pub proof fn law_balanced_quantities_pass(quantity: Decimal, filled: Decimal, remaining: Decimal)
    requires
        filled@.0 >= 0,
        remaining@.0 >= 0,
        sum_model(filled@, remaining@) == Some(quantity@),
    ensures
        quantities_non_negative(quantity, filled, remaining),
        quantity_balance(quantity, filled, remaining) == Some(true),
{
    lemma_sum_keeps_sign(filled@, remaining@);
    lemma_same_value_reflexive(quantity@);
}

/// A quantity that exceeds `filled + remaining` by a positive amount never
/// balances.
pub proof fn law_excess_quantity_fails(
    quantity: Decimal,
    filled: Decimal,
    remaining: Decimal,
    excess: Decimal,
)
    requires
        excess@.0 > 0,
        sum_model(filled@, remaining@) matches Some(total) && sum_model(total, excess@) == Some(
            quantity@,
        ),
    ensures
        quantity_balance(quantity, filled, remaining) == Some(false),
{
    let total = sum_model(filled@, remaining@).unwrap();
    lemma_sum_exceeds(total, excess@);
}

/// Quantity balance is numeric: `filled + remaining` (checked) equals
/// `quantity` by cross-multiplication, whatever the scales of the two.
pub proof fn law_balance_is_numeric(quantity: Decimal, filled: Decimal, remaining: Decimal)
    ensures
        quantity_balance(quantity, filled, remaining) == Some(true) <==> (sum_model(
            filled@,
            remaining@,
        ) matches Some(total) && total.0 * pow10(quantity@.1) == quantity@.0 * pow10(total.1)),
        quantity_balance(quantity, filled, remaining) is None <==> sum_model(filled@, remaining@)
            is None,
{
    match sum_model(filled@, remaining@) {
        Some(total) => lemma_same_value_cross(total, quantity@),
        None => {},
    }
}

/// An order that passes validation meets every constraint, each stated on
/// its fields: non-negative quantities, `filled + remaining == quantity`,
/// positive prices, `created_at <= updated_at`, and a good-till-date
/// deadline not before `created_at`.
pub proof fn law_passing_order_meets_every_constraint(order: Order)
    ensures
        order_fault(order) is None ==> {
            &&& order.quantity@.0 >= 0
            &&& order.filled_quantity@.0 >= 0
            &&& order.remaining_quantity@.0 >= 0
            &&& sum_model(order.filled_quantity@, order.remaining_quantity@) matches Some(total)
                && total.0 * pow10(order.quantity@.1) == order.quantity@.0 * pow10(total.1)
            &&& order.price matches Some(p) ==> p@.0 > 0
            &&& order.stop_price matches Some(p) ==> p@.0 > 0
            &&& order.created_at <= order.updated_at
            &&& order.time_in_force matches TimeInForce::Gtd(deadline) ==> order.created_at
                <= deadline
        },
        order.updated_at < order.created_at ==> order_fault(order) is Some,
        (order.time_in_force matches TimeInForce::Gtd(deadline) && deadline < order.created_at)
            ==> order_fault(order) is Some,
{
    law_balance_is_numeric(order.quantity, order.filled_quantity, order.remaining_quantity);
}

/// A negative quantity, filled quantity or remaining quantity each fails
/// the non-negativity check on its own; three non-negative ones pass.
pub proof fn law_each_quantity_must_be_non_negative(
    quantity: Decimal,
    filled: Decimal,
    remaining: Decimal,
)
    ensures
        quantity@.0 < 0 ==> !quantities_non_negative(quantity, filled, remaining),
        filled@.0 < 0 ==> !quantities_non_negative(quantity, filled, remaining),
        remaining@.0 < 0 ==> !quantities_non_negative(quantity, filled, remaining),
        quantity@.0 >= 0 && filled@.0 >= 0 && remaining@.0 >= 0 ==> quantities_non_negative(
            quantity,
            filled,
            remaining,
        ),
{
}

/// A price or stop price that is zero or negative fails the price check,
/// as does a missing limit price on a limit order, a limit price on a
/// market order and a missing stop price on a stop order.
pub proof fn law_prices_positive_and_present(order: Order)
    ensures
        order.price matches Some(p) && p@.0 <= 0 ==> !prices_valid(order),
        order.stop_price matches Some(p) && p@.0 <= 0 ==> !prices_valid(order),
        (order.order_type is Limit || order.order_type is StopLimit) && order.price is None
            ==> !prices_valid(order),
        order.order_type is Market && order.price is Some ==> !prices_valid(order),
        (order.order_type is StopMarket || order.order_type is StopLimit) && order.stop_price
            is None ==> !prices_valid(order),
{
}

/// A good-till-date deadline fails exactly when it is before the creation
/// time; a deadline at or after it, and every other policy, passes.
pub proof fn law_gtd_deadline_not_before_creation(tif: TimeInForce, created_at: Timestamp)
    ensures
        tif matches TimeInForce::Gtd(deadline) ==> (gtd_before_creation(tif, created_at)
            <==> deadline < created_at),
        !(tif is Gtd) ==> !gtd_before_creation(tif, created_at),
{
}

} // verus!
