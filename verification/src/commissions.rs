//! Per-asset aggregation of commissions with checked decimal addition.
use vstd::prelude::*;
use vstd::utf8::{encode_utf8, encode_utf8_decode_utf8};

use crate::decimal::{aligned_mantissa, decimal_text, lemma_align_same, lemma_align_sum, lemma_align_twice, max_nat, lemma_mantissa_fits, lemma_zero_plus, sum_left, sum_model, Decimal, DecimalError};
use crate::validate::ValidationError;
use crate::Commission;

verus! {

/// Lexicographic order of byte sequences.
pub open spec fn bytes_lt(a: Seq<u8>, b: Seq<u8>) -> bool
    decreases a.len(),
{
    if a.len() == 0 {
        b.len() > 0
    } else if b.len() == 0 {
        false
    } else if a[0] != b[0] {
        a[0] < b[0]
    } else {
        bytes_lt(a.drop_first(), b.drop_first())
    }
}

/// The order of strings, as `str` orders them: lexicographically by their
/// UTF-8 bytes.
pub open spec fn str_lt(a: Seq<char>, b: Seq<char>) -> bool {
    bytes_lt(encode_utf8(a), encode_utf8(b))
}

proof fn lemma_bytes_lt_irreflexive(a: Seq<u8>)
    ensures
        !bytes_lt(a, a),
    decreases a.len(),
{
    if a.len() > 0 {
        lemma_bytes_lt_irreflexive(a.drop_first());
    }
}

proof fn lemma_bytes_lt_transitive(a: Seq<u8>, b: Seq<u8>, c: Seq<u8>)
    requires
        bytes_lt(a, b),
        bytes_lt(b, c),
    ensures
        bytes_lt(a, c),
    decreases a.len(),
{
    if a.len() > 0 && b.len() > 0 && c.len() > 0 {
        if a[0] == b[0] && b[0] == c[0] {
            lemma_bytes_lt_transitive(a.drop_first(), b.drop_first(), c.drop_first());
        }
    }
}

proof fn lemma_bytes_lt_total(a: Seq<u8>, b: Seq<u8>)
    requires
        a != b,
    ensures
        bytes_lt(a, b) || bytes_lt(b, a),
    decreases a.len(),
{
    if a.len() == 0 {
        assert(b.len() > 0) by {
            if b.len() == 0 {
                assert(a =~= b);
            }
        }
    } else if b.len() > 0 && a[0] == b[0] {
        if a.drop_first() == b.drop_first() {
            assert(a.len() == b.len()) by {
                assert(a.drop_first().len() == b.drop_first().len());
            }
            assert(a =~= b) by {
                assert forall|i: int| 0 <= i < a.len() implies a[i] == b[i] by {
                    if i > 0 {
                        assert(a[i] == a.drop_first()[i - 1]);
                        assert(b[i] == b.drop_first()[i - 1]);
                    }
                }
            }
        }
        lemma_bytes_lt_total(a.drop_first(), b.drop_first());
    }
}

/// `str_lt` is irreflexive.
pub proof fn lemma_str_lt_irreflexive(a: Seq<char>)
    ensures
        !str_lt(a, a),
{
    lemma_bytes_lt_irreflexive(encode_utf8(a));
}

/// `str_lt` is transitive.
pub proof fn lemma_str_lt_transitive(a: Seq<char>, b: Seq<char>, c: Seq<char>)
    requires
        str_lt(a, b),
        str_lt(b, c),
    ensures
        str_lt(a, c),
{
    lemma_bytes_lt_transitive(encode_utf8(a), encode_utf8(b), encode_utf8(c));
}

/// Two different strings are ordered one way or the other.
pub proof fn lemma_str_lt_total(a: Seq<char>, b: Seq<char>)
    requires
        a != b,
    ensures
        str_lt(a, b) || str_lt(b, a),
{
    encode_utf8_decode_utf8(a);
    encode_utf8_decode_utf8(b);
    lemma_bytes_lt_total(encode_utf8(a), encode_utf8(b));
}

/// `bytes_lt` from position `i` on, where both agree before `i`.
proof fn lemma_bytes_lt_suffix(a: Seq<u8>, b: Seq<u8>, i: int)
    requires
        0 <= i <= a.len(),
        i <= b.len(),
        forall|j: int| 0 <= j < i ==> a[j] == b[j],
    ensures
        bytes_lt(a, b) == bytes_lt(a.subrange(i, a.len() as int), b.subrange(i, b.len() as int)),
    decreases i,
{
    if i == 0 {
        assert(a.subrange(0, a.len() as int) =~= a);
        assert(b.subrange(0, b.len() as int) =~= b);
    } else {
        lemma_bytes_lt_suffix(a.drop_first(), b.drop_first(), i - 1);
        assert(a.drop_first().subrange(i - 1, a.len() - 1) =~= a.subrange(i, a.len() as int));
        assert(b.drop_first().subrange(i - 1, b.len() - 1) =~= b.subrange(i, b.len() as int));
    }
}

/// Whether byte string `a` sorts strictly before `b`.
fn bytes_less(a: &[u8], b: &[u8]) -> (r: bool)
    ensures
        r == bytes_lt(a@, b@),
{
    let la = a.len();
    let lb = b.len();
    let mut i: usize = 0;
    while i < la && i < lb
        invariant
            la == a@.len(),
            lb == b@.len(),
            i <= la,
            i <= lb,
            forall|j: int| 0 <= j < i ==> a@[j] == b@[j],
        decreases la - i,
    {
        if a[i] != b[i] {
            proof {
                lemma_bytes_lt_suffix(a@, b@, i as int);
                let sa = a@.subrange(i as int, a@.len() as int);
                let sb = b@.subrange(i as int, b@.len() as int);
                assert(sa[0] == a@[i as int]);
                assert(sb[0] == b@[i as int]);
            }
            return a[i] < b[i];
        }
        i = i + 1;
    }
    proof {
        lemma_bytes_lt_suffix(a@, b@, i as int);
        let sa = a@.subrange(i as int, a@.len() as int);
        let sb = b@.subrange(i as int, b@.len() as int);
        assert(sa.len() == 0 || sb.len() == 0);
    }
    i == la && i < lb
}

/// Whether string `a` sorts strictly before `b`.
fn str_less(a: &String, b: &String) -> (r: bool)
    ensures
        r == str_lt(a@, b@),
{
    bytes_less(a.as_str().as_bytes(), b.as_str().as_bytes())
}

/// The total of the commissions in `items` charged in `asset`: the amounts
/// are added in order, starting from zero, with `decimalx`'s checked
/// addition; `None` once an addition overflows. Its view is `(mantissa,
/// scale)`.
pub open spec fn asset_total(items: Seq<Commission>, asset: Seq<char>) -> Option<(int, nat)>
    decreases items.len(),
{
    if items.len() == 0 {
        Some((0, 0))
    } else {
        match asset_total(items.drop_last(), asset) {
            None => None,
            Some(acc) => if items.last().asset@ == asset {
                sum_model(acc, items.last().amount@)
            } else {
                Some(acc)
            },
        }
    }
}

/// Assets sorted strictly ascending, hence each at most once.
pub open spec fn strictly_sorted(out: Seq<Commission>) -> bool {
    forall|i: int, j: int| 0 <= i < j < out.len() ==> str_lt(out[i].asset@, out[j].asset@)
}

/// Some item of `items` is charged in `asset`.
pub open spec fn has_asset(items: Seq<Commission>, asset: Seq<char>) -> bool {
    exists|i: int| 0 <= i < items.len() && #[trigger] items[i].asset@ == asset
}

/// With no item in `asset`, the total is zero.
proof fn lemma_total_absent(items: Seq<Commission>, asset: Seq<char>)
    requires
        !has_asset(items, asset),
    ensures
        asset_total(items, asset) == Some((0int, 0nat)),
    decreases items.len(),
{
    if items.len() > 0 {
        assert(!has_asset(items.drop_last(), asset)) by {
            if has_asset(items.drop_last(), asset) {
                let i = choose|i: int|
                    0 <= i < items.drop_last().len() && #[trigger] items.drop_last()[i].asset@
                        == asset;
                assert(items[i].asset@ == asset);
            }
        }
        lemma_total_absent(items.drop_last(), asset);
        assert(items[items.len() - 1].asset@ != asset);
    }
}

/// Once the total of a prefix overflows, so does the total of the whole.
proof fn lemma_total_overflow_persists(items: Seq<Commission>, n: int, asset: Seq<char>)
    requires
        0 <= n <= items.len(),
        asset_total(items.take(n), asset) is None,
    ensures
        asset_total(items, asset) is None,
    decreases items.len(),
{
    if n == items.len() {
        assert(items.take(n) =~= items);
    } else {
        assert(items.drop_last().take(n) =~= items.take(n));
        lemma_total_overflow_persists(items.drop_last(), n, asset);
    }
}

/// The total of asset `items[j].asset` is still defined after item `j`.
pub open spec fn settles(items: Seq<Commission>, j: int) -> bool {
    asset_total(items.take(j + 1), items[j].asset@) is Some
}

/// Item `i` is the first whose addition to its asset's running total
/// overflows.
pub open spec fn first_overflow(items: Seq<Commission>, i: int) -> bool {
    &&& 0 <= i < items.len()
    &&& forall|j: int| 0 <= j < i ==> #[trigger] settles(items, j)
    &&& !settles(items, i)
}

/// The message of an overflowing total: the asset, the running total and
/// the amount, in `decimalx`'s text, then `decimalx`'s message for
/// `RepresentationOverflow`.
pub open spec fn overflow_text(asset: Seq<char>, current: (int, nat), amount: (int, nat)) -> Seq<
    char,
> {
    "佣金按资产 "@ + asset + " 汇总溢出: current("@ + decimal_text(current.0, current.1)
        + ") + amount("@ + decimal_text(amount.0, amount.1) + ")："@
        + "十进制表示范围不足（中间值溢出）"@
}

/// Builds `overflow_text` for `asset`, `current` and `amount`.
fn overflow_message(asset: &String, current: &Decimal, amount: &Decimal, e: &DecimalError) -> (m:
    String)
    requires
        *e == DecimalError::RepresentationOverflow,
    ensures
        m@ == overflow_text(asset@, current@, amount@),
{
    let mut m = "佣金按资产 ".to_owned();
    m.append(asset.as_str());
    m.append(" 汇总溢出: current(");
    let current_text = current.to_string();
    m.append(current_text.as_str());
    m.append(") + amount(");
    let amount_text = amount.to_string();
    m.append(amount_text.as_str());
    m.append(")：");
    let error_text = e.to_string();
    m.append(error_text.as_str());
    m
}

/// The per-asset total is the checked sum of the amounts in input order:
/// for commissions in one asset, two of them total `x + y` and three total
/// `(x + y) + z`, so that regrouping them is `law_sum_associative`.
pub proof fn law_total_is_checked_sum(x: Commission, y: Commission, z: Commission)
    requires
        x.asset@ == y.asset@,
        y.asset@ == z.asset@,
    ensures
        asset_total(seq![x], x.asset@) == Some(x.amount@),
        asset_total(seq![x, y], x.asset@) == sum_model(x.amount@, y.amount@),
        asset_total(seq![x, y, z], x.asset@) == sum_left(x.amount@, y.amount@, z.amount@),
{
    lemma_mantissa_fits(x.amount);
    lemma_zero_plus(x.amount@);
    let s1 = seq![x];
    let s2 = seq![x, y];
    let s3 = seq![x, y, z];
    assert(s1.drop_last() =~= Seq::<Commission>::empty());
    assert(s2.drop_last() =~= s1);
    assert(s3.drop_last() =~= s2);
    assert(asset_total(Seq::<Commission>::empty(), x.asset@) == Some((0int, 0nat)));
}

/// `out` is the aggregation of `items`: assets strictly ascending, exactly
/// the assets of `items`, each with its total.
pub open spec fn aggregates(items: Seq<Commission>, out: Seq<Commission>) -> bool {
    &&& strictly_sorted(out)
    &&& forall|k: int| 0 <= k < out.len() ==> has_asset(items, #[trigger] out[k].asset@)
    &&& forall|i: int| 0 <= i < items.len() ==> has_asset(out, #[trigger] items[i].asset@)
    &&& forall|k: int|
        0 <= k < out.len() ==> asset_total(items, #[trigger] out[k].asset@) == Some(out[k].amount@)
}

/// The largest scale among the amounts charged in `asset`, zero if none.
pub open spec fn scale_in(items: Seq<Commission>, asset: Seq<char>) -> nat
    decreases items.len(),
{
    if items.len() == 0 {
        0
    } else if items.last().asset@ == asset {
        max_nat(scale_in(items.drop_last(), asset), items.last().amount@.1)
    } else {
        scale_in(items.drop_last(), asset)
    }
}

/// What an item adds to the exact sum of `asset` at scale `t`.
pub open spec fn share(c: Commission, asset: Seq<char>, t: nat) -> int {
    if c.asset@ == asset {
        aligned_mantissa(c.amount@.0, c.amount@.1, t)
    } else {
        0
    }
}

/// The exact sum of the amounts charged in `asset`, written at scale `t`.
pub open spec fn sum_in(items: Seq<Commission>, asset: Seq<char>, t: nat) -> int
    decreases items.len(),
{
    if items.len() == 0 {
        0
    } else {
        sum_in(items.drop_last(), asset, t) + share(items.last(), asset, t)
    }
}

/// The scale of an amount in `asset` is at most `scale_in`.
proof fn lemma_scale_in_bound(items: Seq<Commission>, asset: Seq<char>)
    ensures
        items.len() > 0 ==> scale_in(items.drop_last(), asset) <= scale_in(items, asset),
        items.len() > 0 && items.last().asset@ == asset ==> items.last().amount@.1 <= scale_in(
            items,
            asset,
        ),
{
}

/// Writing the exact sum at a larger scale is the exact sum at that scale.
proof fn lemma_sum_in_realign(items: Seq<Commission>, asset: Seq<char>, s: nat, t: nat)
    requires
        scale_in(items, asset) <= s <= t,
    ensures
        aligned_mantissa(sum_in(items, asset, s), s, t) == sum_in(items, asset, t),
    decreases items.len(),
{
    if items.len() == 0 {
        assert(aligned_mantissa(0, s, t) == 0);
    } else {
        let dl = items.drop_last();
        let l = items.last();
        lemma_scale_in_bound(items, asset);
        lemma_sum_in_realign(dl, asset, s, t);
        lemma_align_sum(sum_in(dl, asset, s), share(l, asset, s), s, t);
        if l.asset@ == asset {
            lemma_align_twice(l.amount@.0, l.amount@.1, s, t);
        } else {
            assert(aligned_mantissa(0, s, t) == 0);
        }
    }
}

/// A total that does not overflow is the exact sum of the asset's amounts,
/// written at the largest of their scales.
proof fn lemma_total_is_exact(items: Seq<Commission>, asset: Seq<char>)
    requires
        asset_total(items, asset) is Some,
    ensures
        asset_total(items, asset) == Some(
            (sum_in(items, asset, scale_in(items, asset)), scale_in(items, asset)),
        ),
    decreases items.len(),
{
    if items.len() > 0 {
        let dl = items.drop_last();
        let l = items.last();
        lemma_total_is_exact(dl, asset);
        let sp = scale_in(dl, asset);
        if l.asset@ == asset {
            let t = scale_in(items, asset);
            lemma_sum_in_realign(dl, asset, sp, t);
        }
    }
}

/// Removing item `j` takes exactly its share out of the exact sum, and its
/// scale out of the largest scale.
proof fn lemma_remove_item(items: Seq<Commission>, j: int, asset: Seq<char>, t: nat)
    requires
        0 <= j < items.len(),
    ensures
        sum_in(items, asset, t) == sum_in(items.remove(j), asset, t) + share(items[j], asset, t),
        scale_in(items, asset) == if items[j].asset@ == asset {
            max_nat(scale_in(items.remove(j), asset), items[j].amount@.1)
        } else {
            scale_in(items.remove(j), asset)
        },
    decreases items.len(),
{
    let r = items.remove(j);
    if j == items.len() - 1 {
        assert(r =~= items.drop_last());
    } else {
        let dl = items.drop_last();
        assert(r.drop_last() =~= dl.remove(j));
        assert(r.last() == items.last());
        assert(dl[j] == items[j]);
        lemma_remove_item(dl, j, asset, t);
    }
}

/// Exact sums and largest scales depend only on the multiset of items.
proof fn lemma_permuted_sums(items1: Seq<Commission>, items2: Seq<Commission>, asset: Seq<char>, t: nat)
    requires
        items1.to_multiset() == items2.to_multiset(),
    ensures
        sum_in(items1, asset, t) == sum_in(items2, asset, t),
        scale_in(items1, asset) == scale_in(items2, asset),
    decreases items1.len(),
{
    broadcast use vstd::seq_lib::group_to_multiset_ensures;

    vstd::seq_lib::to_multiset_len(items1);
    vstd::seq_lib::to_multiset_len(items2);
    if items1.len() == 0 {
        assert(items2.len() == 0);
    } else {
        let dl = items1.drop_last();
        let e = items1.last();
        assert(items1 =~= dl.push(e));
        assert(items1.to_multiset() =~= dl.to_multiset().insert(e));
        assert(items2.to_multiset().count(e) > 0);
        vstd::seq_lib::to_multiset_contains(items2, e);
        assert(items2.contains(e));
        let j = choose|j: int| 0 <= j < items2.len() && items2[j] == e;
        let r = items2.remove(j);
        assert(r.to_multiset() =~= items2.to_multiset().remove(e));
        assert(dl.to_multiset() =~= dl.to_multiset().insert(e).remove(e));
        lemma_permuted_sums(dl, r, asset, t);
        lemma_remove_item(items2, j, asset, t);
    }
}

/// Permuting the items keeps the set of their assets.
proof fn lemma_permuted_assets(items1: Seq<Commission>, items2: Seq<Commission>, asset: Seq<char>)
    requires
        items1.to_multiset() == items2.to_multiset(),
        has_asset(items1, asset),
    ensures
        has_asset(items2, asset),
{
    broadcast use vstd::seq_lib::group_to_multiset_ensures;

    let i = choose|i: int| 0 <= i < items1.len() && #[trigger] items1[i].asset@ == asset;
    let e = items1[i];
    assert(items1.contains(e));
    vstd::seq_lib::to_multiset_contains(items1, e);
    vstd::seq_lib::to_multiset_contains(items2, e);
    assert(items2.contains(e));
    let j = choose|j: int| 0 <= j < items2.len() && items2[j] == e;
    assert(items2[j].asset@ == asset);
}

/// Two strictly sorted lists with the same assets list them alike.
proof fn lemma_sorted_same_assets(o1: Seq<Commission>, o2: Seq<Commission>)
    requires
        strictly_sorted(o1),
        strictly_sorted(o2),
        forall|k: int| 0 <= k < o1.len() ==> has_asset(o2, #[trigger] o1[k].asset@),
        forall|k: int| 0 <= k < o2.len() ==> has_asset(o1, #[trigger] o2[k].asset@),
    ensures
        o1.len() == o2.len(),
        forall|k: int| 0 <= k < o1.len() ==> #[trigger] o1[k].asset@ == o2[k].asset@,
    decreases o1.len(),
{
    if o1.len() == 0 {
        if o2.len() > 0 {
            assert(has_asset(o1, o2[0].asset@));
        }
    } else {
        assert(has_asset(o2, o1[0].asset@));
        let a = o1[0].asset@;
        let b = o2[0].asset@;
        if a != b {
            lemma_str_lt_total(a, b);
            if str_lt(a, b) {
                let m = choose|m: int| 0 <= m < o2.len() && #[trigger] o2[m].asset@ == a;
                assert(m > 0);
                lemma_str_lt_transitive(a, b, a);
                lemma_str_lt_irreflexive(a);
            } else {
                assert(has_asset(o1, b));
                let m = choose|m: int| 0 <= m < o1.len() && #[trigger] o1[m].asset@ == b;
                assert(m > 0);
                lemma_str_lt_transitive(b, a, b);
                lemma_str_lt_irreflexive(b);
            }
        }
        let r1 = o1.drop_first();
        let r2 = o2.drop_first();
        assert forall|k: int| 0 <= k < r1.len() implies has_asset(r2, #[trigger] r1[k].asset@) by {
            assert(o1[k + 1] == r1[k]);
            assert(has_asset(o2, o1[k + 1].asset@));
            let m = choose|m: int| 0 <= m < o2.len() && #[trigger] o2[m].asset@ == o1[k + 1].asset@;
            if m == 0 {
                lemma_str_lt_irreflexive(a);
            }
            assert(r2[m - 1] == o2[m]);
        }
        assert forall|k: int| 0 <= k < r2.len() implies has_asset(r1, #[trigger] r2[k].asset@) by {
            assert(o2[k + 1] == r2[k]);
            assert(has_asset(o1, o2[k + 1].asset@));
            let m = choose|m: int| 0 <= m < o1.len() && #[trigger] o1[m].asset@ == o2[k + 1].asset@;
            if m == 0 {
                lemma_str_lt_irreflexive(b);
            }
            assert(r1[m - 1] == o1[m]);
        }
        assert(strictly_sorted(r1)) by {
            assert forall|i: int, j: int| 0 <= i < j < r1.len() implies str_lt(
                r1[i].asset@,
                r1[j].asset@,
            ) by {
                assert(r1[i] == o1[i + 1] && r1[j] == o1[j + 1]);
            }
        }
        assert(strictly_sorted(r2)) by {
            assert forall|i: int, j: int| 0 <= i < j < r2.len() implies str_lt(
                r2[i].asset@,
                r2[j].asset@,
            ) by {
                assert(r2[i] == o2[i + 1] && r2[j] == o2[j + 1]);
            }
        }
        lemma_sorted_same_assets(r1, r2);
        assert forall|k: int| 0 <= k < o1.len() implies #[trigger] o1[k].asset@ == o2[k].asset@ by {
            if k > 0 {
                assert(r1[k - 1].asset@ == r2[k - 1].asset@);
            }
        }
    }
}

/// The aggregation does not depend on the order of the input: when the
/// commissions of `items2` are those of `items1` in another order and both
/// aggregate without overflow, the results list the same assets in the same
/// order with the same totals.
pub proof fn law_aggregation_order_independent(
    items1: Seq<Commission>,
    items2: Seq<Commission>,
    out1: Seq<Commission>,
    out2: Seq<Commission>,
)
    requires
        items1.to_multiset() == items2.to_multiset(),
        aggregates(items1, out1),
        aggregates(items2, out2),
    ensures
        out1.len() == out2.len(),
        forall|k: int|
            0 <= k < out1.len() ==> #[trigger] out1[k].asset@ == out2[k].asset@ && out1[k].amount@
                == out2[k].amount@,
{
    assert forall|k: int| 0 <= k < out1.len() implies has_asset(out2, #[trigger] out1[k].asset@) by {
        let a = out1[k].asset@;
        lemma_permuted_assets(items1, items2, a);
        let i = choose|i: int| 0 <= i < items2.len() && #[trigger] items2[i].asset@ == a;
        assert(has_asset(out2, items2[i].asset@));
    }
    assert forall|k: int| 0 <= k < out2.len() implies has_asset(out1, #[trigger] out2[k].asset@) by {
        let a = out2[k].asset@;
        lemma_permuted_assets(items2, items1, a);
        let i = choose|i: int| 0 <= i < items1.len() && #[trigger] items1[i].asset@ == a;
        assert(has_asset(out1, items1[i].asset@));
    }
    lemma_sorted_same_assets(out1, out2);
    assert forall|k: int| 0 <= k < out1.len() implies #[trigger] out1[k].asset@ == out2[k].asset@
        && out1[k].amount@ == out2[k].amount@ by {
        let a = out1[k].asset@;
        assert(out2[k].asset@ == a);
        lemma_total_is_exact(items1, a);
        lemma_total_is_exact(items2, a);
        lemma_permuted_sums(items1, items2, a, scale_in(items1, a));
    }
}

/// Adds up commissions per asset. The result lists each asset of `items`
/// once, sorted ascending by asset, with the total of its amounts (checked
/// decimal addition in input order, from zero). Fails with a quantity error
/// carrying the decimal error as soon as a total overflows; its message
/// names the asset, the running total and the amount.
#[verifier::spinoff_prover]
pub fn aggregate_commissions_by_asset(items: &[Commission]) -> (r: Result<
    Vec<Commission>,
    ValidationError,
>)
    ensures
        r is Ok <==> forall|i: int|
            0 <= i < items@.len() ==> asset_total(items@, #[trigger] items@[i].asset@) is Some,
        match r {
            Ok(out) => aggregates(items@, out@),
            Err(e) => exists|i: int|
                {
                    &&& #[trigger] first_overflow(items@, i)
                    &&& e matches ValidationError::Quantity(
                        msg,
                        Some(DecimalError::RepresentationOverflow),
                    )
                    &&& msg@ == overflow_text(
                        items@[i].asset@,
                        asset_total(items@.take(i), items@[i].asset@).unwrap(),
                        items@[i].amount@,
                    )
                },
        },
{
    let mut out: Vec<Commission> = Vec::new();
    let n = items.len();
    for i in 0..n
        invariant
            n == items@.len(),
            strictly_sorted(out@),
            forall|k: int|
                0 <= k < out@.len() ==> has_asset(items@.take(i as int), #[trigger] out@[k].asset@),
            forall|j: int| 0 <= j < i ==> has_asset(out@, #[trigger] items@[j].asset@),
            forall|k: int|
                0 <= k < out@.len() ==> asset_total(items@.take(i as int), #[trigger] out@[k].asset@)
                    == Some(out@[k].amount@),
            forall|j: int| 0 <= j < i ==> #[trigger] settles(items@, j),
    {
        let item = &items[i];
        let ghost prefix = items@.take(i as int);
        let ghost next = items@.take(i + 1);
        assert(next.drop_last() =~= prefix);
        assert(next.last() == items@[i as int]);
        // Binary search for the first asset that does not sort before this one.
        let mut lo: usize = 0;
        let mut hi: usize = out.len();
        while lo < hi
            invariant
                lo <= hi <= out@.len(),
                strictly_sorted(out@),
                forall|k: int| 0 <= k < lo ==> str_lt(#[trigger] out@[k].asset@, item.asset@),
                forall|k: int|
                    hi <= k < out@.len() ==> !str_lt(#[trigger] out@[k].asset@, item.asset@),
            decreases hi - lo,
        {
            let mid = lo + (hi - lo) / 2;
            if str_less(&out[mid].asset, &item.asset) {
                proof {
                    assert forall|k: int| 0 <= k <= mid implies str_lt(
                        #[trigger] out@[k].asset@,
                        item.asset@,
                    ) by {
                        if k < mid {
                            lemma_str_lt_transitive(
                                out@[k].asset@,
                                out@[mid as int].asset@,
                                item.asset@,
                            );
                        }
                    }
                }
                lo = mid + 1;
            } else {
                proof {
                    assert forall|k: int| mid <= k < out@.len() implies !str_lt(
                        #[trigger] out@[k].asset@,
                        item.asset@,
                    ) by {
                        if k > mid && str_lt(out@[k].asset@, item.asset@) {
                            lemma_str_lt_transitive(
                                out@[mid as int].asset@,
                                out@[k].asset@,
                                item.asset@,
                            );
                        }
                    }
                }
                hi = mid;
            }
        }
        let p = lo;
        if p < out.len() && out[p].asset == item.asset {
            match out[p].amount.checked_add(item.amount) {
                Ok(total) => {
                    let ghost old_out = out@;
                    let entry = Commission { amount: total, asset: out[p].asset.clone() };
                    out.set(p, entry);
                    proof {
                        assert forall|k: int| 0 <= k < out@.len() implies asset_total(
                            next,
                            #[trigger] out@[k].asset@,
                        ) == Some(out@[k].amount@) by {
                            if k != p {
                                assert(old_out[k].asset@ != item.asset@) by {
                                    if k < p {
                                        lemma_str_lt_irreflexive(item.asset@);
                                    } else {
                                        lemma_str_lt_irreflexive(old_out[p as int].asset@);
                                    }
                                }
                            }
                        }
                        assert forall|k: int| 0 <= k < out@.len() implies has_asset(
                            next,
                            #[trigger] out@[k].asset@,
                        ) by {
                            assert(has_asset(prefix, old_out[k].asset@));
                            let j = choose|j: int|
                                0 <= j < prefix.len() && #[trigger] prefix[j].asset@
                                    == old_out[k].asset@;
                            assert(next[j] == prefix[j]);
                        }
                        assert forall|j: int| 0 <= j < i + 1 implies has_asset(
                            out@,
                            #[trigger] items@[j].asset@,
                        ) by {
                            if j < i {
                                assert(has_asset(old_out, items@[j].asset@));
                                let k = choose|k: int|
                                    0 <= k < old_out.len() && #[trigger] old_out[k].asset@
                                        == items@[j].asset@;
                                assert(out@[k].asset@ == old_out[k].asset@);
                            } else {
                                assert(out@[p as int].asset@ == items@[j].asset@);
                            }
                        }
                    }
                },
                Err(e) => {
                    proof {
                        lemma_total_overflow_persists(items@, i + 1, item.asset@);
                        assert(first_overflow(items@, i as int));
                    }
                    let msg = overflow_message(&item.asset, &out[p].amount, &item.amount, &e);
                    return Err(ValidationError::Quantity(msg, Some(e)));
                },
            }
        } else {
            proof {
                assert(!has_asset(prefix, item.asset@)) by {
                    if has_asset(prefix, item.asset@) {
                        let j = choose|j: int|
                            0 <= j < prefix.len() && #[trigger] prefix[j].asset@ == item.asset@;
                        assert(has_asset(out@, items@[j].asset@));
                        let k = choose|k: int|
                            0 <= k < out@.len() && #[trigger] out@[k].asset@ == items@[j].asset@;
                        if k < p {
                            lemma_str_lt_irreflexive(item.asset@);
                        } else if k == p {
                        } else {
                            lemma_str_lt_total(out@[p as int].asset@, item.asset@);
                            lemma_str_lt_transitive(
                                out@[p as int].asset@,
                                out@[k].asset@,
                                out@[p as int].asset@,
                            );
                            lemma_str_lt_irreflexive(out@[p as int].asset@);
                        }
                    }
                }
                lemma_total_absent(prefix, item.asset@);
            }
            let zero = Decimal::zero();
            match zero.checked_add(item.amount) {
                Ok(total) => {
                    let ghost old_out = out@;
                    let entry = Commission { amount: total, asset: item.asset.clone() };
                    out.insert(p, entry);
                    proof {
                        assert forall|a: int, b: int| 0 <= a < b < out@.len() implies str_lt(
                            out@[a].asset@,
                            out@[b].asset@,
                        ) by {
                            if b == p {
                            } else if a == p {
                                let ob = old_out[b - 1].asset@;
                                lemma_str_lt_total(old_out[p as int].asset@, item.asset@);
                                if b - 1 > p {
                                    lemma_str_lt_transitive(
                                        item.asset@,
                                        old_out[p as int].asset@,
                                        ob,
                                    );
                                }
                            } else if a < p && b > p {
                                assert(out@[b].asset@ == old_out[b - 1].asset@);
                                assert(str_lt(old_out[a].asset@, old_out[b - 1].asset@));
                            } else if a > p {
                                assert(out@[a].asset@ == old_out[a - 1].asset@);
                                assert(out@[b].asset@ == old_out[b - 1].asset@);
                            }
                        }
                        assert forall|k: int| 0 <= k < out@.len() implies asset_total(
                            next,
                            #[trigger] out@[k].asset@,
                        ) == Some(out@[k].amount@) by {
                            if k < p {
                                assert(out@[k] == old_out[k]);
                                lemma_str_lt_irreflexive(item.asset@);
                            } else if k > p {
                                assert(out@[k] == old_out[k - 1]);
                                assert(old_out[k - 1].asset@ != item.asset@) by {
                                    assert(has_asset(prefix, old_out[k - 1].asset@));
                                }
                            }
                        }
                        assert forall|k: int| 0 <= k < out@.len() implies has_asset(
                            next,
                            #[trigger] out@[k].asset@,
                        ) by {
                            if k == p {
                                assert(next[i as int].asset@ == item.asset@);
                            } else {
                                let ok = if k < p {
                                    k
                                } else {
                                    k - 1
                                };
                                assert(out@[k] == old_out[ok]);
                                assert(has_asset(prefix, old_out[ok].asset@));
                                let j = choose|j: int|
                                    0 <= j < prefix.len() && #[trigger] prefix[j].asset@
                                        == old_out[ok].asset@;
                                assert(next[j] == prefix[j]);
                            }
                        }
                        assert forall|j: int| 0 <= j < i + 1 implies has_asset(
                            out@,
                            #[trigger] items@[j].asset@,
                        ) by {
                            if j < i {
                                assert(has_asset(old_out, items@[j].asset@));
                                let k = choose|k: int|
                                    0 <= k < old_out.len() && #[trigger] old_out[k].asset@
                                        == items@[j].asset@;
                                if k < p {
                                    assert(out@[k] == old_out[k]);
                                } else {
                                    assert(out@[k + 1] == old_out[k]);
                                }
                            } else {
                                assert(out@[p as int].asset@ == items@[j].asset@);
                            }
                        }
                    }
                },
                Err(e) => {
                    proof {
                        lemma_total_overflow_persists(items@, i + 1, item.asset@);
                        assert(first_overflow(items@, i as int));
                    }
                    let msg = overflow_message(&item.asset, &zero, &item.amount, &e);
                    return Err(ValidationError::Quantity(msg, Some(e)));
                },
            }
        }
    }
    proof {
        assert(items@.take(n as int) =~= items@);
    }
    Ok(out)
}

} // verus!
