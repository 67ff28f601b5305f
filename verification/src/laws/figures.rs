//! Rounding, and what is worked out by it.

use vstd::prelude::*;

use crate::bill::{Bill, ChargeConfig};
use crate::money::{cut, fits, nearest, Milli, Money};
use crate::repo::catalogue::{measured, pour_fraction, rounded_pour};
use crate::repo::orders::line_total;
use crate::repo::purchases::{blended_cost, unit_rate_of};
use crate::repo::stock::Level;

verus! {

/// Whether a whole number is a fraction to the nearest: at most half away from
/// it, and where it is exactly half away, the one farther from zero.
pub open spec fn is_nearest(q: int, n: int, d: int) -> bool {
    if n >= 0 {
        -d < 2 * (q * d - n) <= d
    } else {
        -d <= 2 * (q * d - n) < d
    }
}

proof fn half_up(n: int, d: int)
    requires
        n >= 0,
        d > 0,
    ensures
        -d < 2 * (((n + d / 2) / d) * d - n) <= d,
        (n + d / 2) / d >= 0,
{
    let q = (n + d / 2) / d;
    let r = (n + d / 2) % d;
    assert(n + d / 2 == d * q + r && 0 <= r < d) by (nonlinear_arith)
        requires
            d > 0,
            q == (n + d / 2) / d,
            r == (n + d / 2) % d,
    ;
    assert(q * d == d * q) by (nonlinear_arith);
    assert(q >= 0) by (nonlinear_arith)
        requires
            n >= 0,
            d > 0,
            q == (n + d / 2) / d,
    ;
}

/// Rounding goes to the nearest whole number, halves away from zero.
pub proof fn rounding_goes_to_the_nearest(n: int, d: int)
    requires
        d > 0,
    ensures
        is_nearest(nearest(n, d), n, d),
{
    if n >= 0 {
        half_up(n, d);
    } else {
        half_up(-n, d);
        let q = (-n + d / 2) / d;
        assert((-q) * d == -(q * d)) by (nonlinear_arith);
    }
}

/// Cutting leaves out what comes after the point, and nothing else.
pub proof fn cutting_leaves_out_what_follows(n: int, d: int)
    requires
        d > 0,
    ensures
        n >= 0 ==> cut(n, d) * d <= n < (cut(n, d) + 1) * d,
        n < 0 ==> (cut(n, d) - 1) * d < n <= cut(n, d) * d,
{
    let m = if n < 0 {
        -n
    } else {
        n
    };
    let q = m / d;
    let r = m % d;
    assert(m == d * q + r && 0 <= r < d) by (nonlinear_arith)
        requires
            d > 0,
            q == m / d,
            r == m % d,
    ;
    assert(q * d == d * q) by (nonlinear_arith);
    assert((q + 1) * d == d * q + d) by (nonlinear_arith);
    assert((-q) * d == -(d * q)) by (nonlinear_arith);
    assert((-q - 1) * d == -(d * q) - d) by (nonlinear_arith);
}

proof fn cut_rounds(n: int, d: int)
    requires
        n >= 0,
        d > 0,
    ensures
        is_nearest(cut(n + d / 2, d), n, d),
{
    half_up(n, d);
}

/// A line of an order comes to its quantity at its price, to the nearest smallest
/// part. It has to be for more than nothing, and a price is never negative.
pub proof fn a_line_comes_to_its_quantity_at_its_price(quantity: Milli, unit_price: Money)
    ensures
        line_total(quantity, unit_price) matches Ok(total) ==> quantity.thousandths > 0
            && unit_price.minor >= 0 && is_nearest(
            total,
            quantity.thousandths * unit_price.minor,
            1_000,
        ),
        line_total(quantity, unit_price) is Err ==> quantity.thousandths <= 0 || unit_price.minor
            < 0 || !fits(quantity.thousandths * unit_price.minor + 500),
{
    let scaled = quantity.thousandths * unit_price.minor;
    if quantity.thousandths > 0 && unit_price.minor >= 0 {
        assert(scaled >= 0) by (nonlinear_arith)
            requires
                scaled == quantity.thousandths * unit_price.minor,
                quantity.thousandths > 0,
                unit_price.minor >= 0,
        ;
        half_up(scaled, 1_000);
    }
}

/// The tax of a bill is on the drinks and the service, service is on the drinks
/// alone, and where prices hold the tax already, the drinks are what is left
/// without it. Whatever is switched off charges nothing, and the parts come to
/// the total.
pub proof fn a_bill_charges_service_and_then_tax(
    bill: Bill,
    drinks: Money,
    config: ChargeConfig,
)
    requires
        bill.is_for(drinks, config),
    ensures
        ({
            let tax: int = if config.tax_enabled {
                config.tax_rate.0 as int
            } else {
                0
            };
            let service: int = if config.service_enabled {
                config.service_rate.0 as int
            } else {
                0
            };
            &&& !config.tax_inclusive ==> bill.net.minor == drinks.minor
            &&& config.tax_inclusive ==> is_nearest(
                bill.net.minor as int,
                drinks.minor * 10_000,
                10_000 + tax,
            )
            &&& is_nearest(bill.service_charge.minor as int, bill.net.minor * service, 10_000)
            &&& is_nearest(
                bill.tax.minor as int,
                (bill.net.minor + bill.service_charge.minor) * tax,
                10_000,
            )
            &&& bill.total.minor == bill.net.minor + bill.service_charge.minor + bill.tax.minor
            &&& bill.tax_rate.0 == tax
            &&& bill.service_rate.0 == service
            &&& bill.tax_inclusive == config.tax_inclusive
        }),
{
    let tax = config.tax_bp();
    let service = config.service_bp();
    let net = bill.net.minor as int;
    if config.tax_inclusive {
        rounding_goes_to_the_nearest(drinks.minor * 10_000, 10_000 + tax);
    }
    rounding_goes_to_the_nearest(net * service, 10_000);
    rounding_goes_to_the_nearest((net + bill.service_charge.minor) * tax, 10_000);
}

/// What a counted unit of a delivery costs is what the line cost over its
/// quantity, to the nearest smallest part.
pub proof fn a_unit_costs_its_share_of_the_line(line_cost: Money, quantity: Milli)
    requires
        line_cost.minor >= 0,
    ensures
        unit_rate_of(line_cost, quantity) matches Ok(rate) ==> quantity.thousandths > 0
            && is_nearest(rate.minor as int, line_cost.minor * 1_000, quantity.thousandths as int),
        unit_rate_of(line_cost, quantity) is Err ==> quantity.thousandths <= 0 || !fits(
            cut(line_cost.minor * 1_000 + quantity.thousandths / 2, quantity.thousandths as int),
        ),
{
    if quantity.thousandths > 0 {
        cut_rounds(line_cost.minor * 1_000, quantity.thousandths as int);
    }
}

/// The average cost after a delivery is what the shelf and the crate are worth
/// together, over all there is of both, to the nearest smallest part. A shelf
/// that is somehow below nothing counts as empty.
pub proof fn an_average_blends_the_shelf_with_the_crate(
    standing: int,
    held: int,
    arriving: int,
    line_cost: int,
)
    requires
        held >= 0,
        line_cost >= 0,
        arriving > 0,
    ensures
        standing >= 0 ==> is_nearest(
            blended_cost(standing, held, arriving, line_cost),
            standing * held + line_cost * 1_000,
            standing + arriving,
        ),
        standing < 0 ==> is_nearest(
            blended_cost(standing, held, arriving, line_cost),
            line_cost * 1_000,
            arriving,
        ),
{
    let before = if standing < 0 {
        0
    } else {
        standing
    };
    assert(before * held >= 0) by (nonlinear_arith)
        requires
            before >= 0,
            held >= 0,
    ;
    assert(0 * held == 0) by (nonlinear_arith);
    cut_rounds(before * held + line_cost * 1_000, before + arriving);
}

/// A shelf is worth what is on it at its average cost, to the nearest smallest
/// part.
pub proof fn a_shelf_is_worth_its_cost(level: Level)
    ensures
        is_nearest(level.worth(), level.on_hand.thousandths * level.avg_cost.minor, 1_000),
{
    rounding_goes_to_the_nearest(level.on_hand.thousandths * level.avg_cost.minor, 1_000);
}

/// A product is low exactly when it is counted and no more of it is there than
/// its own threshold.
pub proof fn a_counted_product_is_low_at_its_threshold(level: Level)
    ensures
        level.runs_low() <==> level.tracks_inventory && level.on_hand.thousandths
            <= level.threshold.thousandths,
{
}

/// What is poured by measure is so much of a counted unit, to the nearest
/// thousandth; and what is read back as a measure is cut, never rounded up.
pub proof fn a_measure_is_a_part_of_a_unit(poured: int, per_unit: int, units: int)
    requires
        poured >= 0,
        per_unit > 0,
        units >= 0,
    ensures
        is_nearest(pour_fraction(poured, per_unit), poured * 1_000, per_unit),
        measured(units, per_unit) * 1_000 <= units * per_unit < (measured(units, per_unit) + 1)
            * 1_000,
{
    cut_rounds(poured * 1_000, per_unit);
    assert(units * per_unit >= 0) by (nonlinear_arith)
        requires
            units >= 0,
            per_unit > 0,
    ;
    cutting_leaves_out_what_follows(units * per_unit, 1_000);
}

/// What a recipe takes off the shelf is rounded to the nearest thousandth once,
/// after everything was added up.
pub proof fn a_pour_is_rounded_to_the_nearest(millionths: int)
    requires
        millionths >= 0,
    ensures
        is_nearest(rounded_pour(millionths), millionths, 1_000),
{
    cut_rounds(millionths, 1_000);
}

} // verus!
