# domainx

Shared trading value objects (orders, positions, trades, execution reports,
portfolios and their enums), explicit pure validation functions, and a
per-asset commission aggregation, verified with Verus.

- `src/decimal.rs` — `Decimal` (`mantissa × 10^(-scale)`, scale ≤ 18) whose
  addition, equality and order are those of `decimalx`, reached through
  trusted wrappers; the arithmetic laws of checked addition.
- `src/validate.rs` — `ValidationError` and the validation functions, each
  with an exact contract; `validate_order` reports the first failing check.
- `src/commissions.rs` — `aggregate_commissions_by_asset`: totals per asset,
  sorted by asset, with checked addition.
- `src/lib.rs` — the value objects.
- `app/` — serde copies of the value objects (camelCase wire, decimals as
  `{mantissa, scale}`), `std::error::Error` for validation errors, and the
  validation entry points on those copies.
