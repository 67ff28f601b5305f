//! What a customer is charged.
//!
//! The service charge is a percentage of the drinks, and VAT is worked out on
//! both together, because a service charge is itself taxable. Where menu
//! prices already include VAT it is taken back out first.

use vstd::prelude::*;

use crate::money::{divide_nearest, fits, narrow, nearest, BasisPoints, Money, MoneyError};

verus! {

/// The venue's charges, as they stand when a bill is worked out.
#[derive(Clone, Copy, Debug, PartialEq, Eq, Structural)]
pub struct ChargeConfig {
    pub tax_enabled: bool,
    pub tax_rate: BasisPoints,
    pub tax_inclusive: bool,
    pub service_enabled: bool,
    pub service_rate: BasisPoints,
}

impl ChargeConfig {
    /// The VAT rate that is charged: none while VAT is switched off.
    pub open spec fn tax_bp(self) -> int {
        if self.tax_enabled {
            self.tax_rate.0 as int
        } else {
            0
        }
    }

    /// The service rate that is charged: none while it is switched off.
    pub open spec fn service_bp(self) -> int {
        if self.service_enabled {
            self.service_rate.0 as int
        } else {
            0
        }
    }

    /// The drinks without VAT.
    pub open spec fn net(self, line_total: int) -> int {
        if self.tax_inclusive {
            nearest(line_total * 10_000, 10_000 + self.tax_bp())
        } else {
            line_total
        }
    }

    pub open spec fn service_charge(self, line_total: int) -> int {
        nearest(self.net(line_total) * self.service_bp(), 10_000)
    }

    pub open spec fn tax(self, line_total: int) -> int {
        nearest(
            (self.net(line_total) + self.service_charge(line_total)) * self.tax_bp(),
            10_000,
        )
    }

    pub open spec fn total(self, line_total: int) -> int {
        self.net(line_total) + self.service_charge(line_total) + self.tax(line_total)
    }

    /// Whether 64 bits hold every figure on the bill.
    pub open spec fn billable(self, line_total: int) -> bool {
        &&& fits(self.net(line_total))
        &&& fits(self.service_charge(line_total))
        &&& fits(self.tax(line_total))
        &&& fits(self.total(line_total))
    }

    pub fn effective_tax_rate(&self) -> (result: BasisPoints)
        ensures
            result.0 == self.tax_bp(),
    {
        if self.tax_enabled {
            self.tax_rate
        } else {
            BasisPoints::zero()
        }
    }

    pub fn effective_service_rate(&self) -> (result: BasisPoints)
        ensures
            result.0 == self.service_bp(),
    {
        if self.service_enabled {
            self.service_rate
        } else {
            BasisPoints::zero()
        }
    }
}

/// A bill with every figure on it.
#[derive(Clone, Copy, Debug, PartialEq, Eq, Structural)]
pub struct Bill {
    pub net: Money,
    pub service_charge: Money,
    pub tax: Money,
    pub total: Money,
    pub tax_rate: BasisPoints,
    pub service_rate: BasisPoints,
    pub tax_inclusive: bool,
}

impl Bill {
    /// Whether this is the bill for that much drink under those charges.
    pub open spec fn is_for(self, line_total: Money, config: ChargeConfig) -> bool {
        let drinks = line_total.minor as int;
        &&& self.net.minor == config.net(drinks)
        &&& self.service_charge.minor == config.service_charge(drinks)
        &&& self.tax.minor == config.tax(drinks)
        &&& self.total.minor == config.total(drinks)
        &&& self.tax_rate.0 == config.tax_bp()
        &&& self.service_rate.0 == config.service_bp()
        &&& self.tax_inclusive == config.tax_inclusive
    }

    /// Works out a bill from what the drinks come to.
    pub fn calculate(line_total: Money, config: &ChargeConfig) -> (result: Result<Bill, MoneyError>)
        ensures
            match result {
                Ok(bill) => bill.is_for(line_total, *config) && config.billable(
                    line_total.minor as int,
                ),
                Err(error) => !config.billable(line_total.minor as int) && error
                    == MoneyError::Overflow,
            },
    {
        let drinks: i128 = line_total.minor as i128;
        let tax_rate: BasisPoints = config.effective_tax_rate();
        let service_rate: BasisPoints = config.effective_service_rate();
        let rate: i128 = tax_rate.0 as i128;
        let service_bp: i128 = service_rate.0 as i128;
        let net: i64 = if config.tax_inclusive {
            match narrow(divide_nearest(drinks * 10_000, 10_000 + rate)) {
                Some(net) => net,
                None => {
                    return Err(MoneyError::Overflow);
                },
            }
        } else {
            line_total.minor
        };
        assert(-0x4000_0000_0000_0000_0000_0000_0000_0000 <= net * service_bp
            <= 0x4000_0000_0000_0000_0000_0000_0000_0000) by (nonlinear_arith)
            requires
                i64::MIN <= net <= i64::MAX,
                0 <= service_bp <= u32::MAX,
        ;
        let service: i64 = match narrow(divide_nearest((net as i128) * service_bp, 10_000)) {
            Some(service) => service,
            None => {
                return Err(MoneyError::Overflow);
            },
        };
        let taxable: i128 = net as i128 + service as i128;
        assert(-0x4000_0000_0000_0000_0000_0000_0000_0000 <= taxable * rate
            <= 0x4000_0000_0000_0000_0000_0000_0000_0000) by (nonlinear_arith)
            requires
                2 * i64::MIN <= taxable <= 2 * i64::MAX,
                0 <= rate <= u32::MAX,
        ;
        let tax: i64 = match narrow(divide_nearest(taxable * rate, 10_000)) {
            Some(tax) => tax,
            None => {
                return Err(MoneyError::Overflow);
            },
        };
        match narrow(taxable + tax as i128) {
            Some(total) => Ok(
                Bill {
                    net: Money { minor: net },
                    service_charge: Money { minor: service },
                    tax: Money { minor: tax },
                    total: Money { minor: total },
                    tax_rate,
                    service_rate,
                    tax_inclusive: config.tax_inclusive,
                },
            ),
            None => Err(MoneyError::Overflow),
        }
    }
}

/// With VAT and the service charge both switched off, a customer pays for the
/// drinks and nothing else.
pub proof fn a_venue_without_charges_bills_the_drinks(line_total: int, config: ChargeConfig)
    requires
        !config.tax_enabled,
        !config.service_enabled,
    ensures
        config.net(line_total) == line_total,
        config.service_charge(line_total) == 0,
        config.tax(line_total) == 0,
        config.total(line_total) == line_total,
{
    assert(config.net(line_total) * 0 == 0);
    assert((config.net(line_total) + config.service_charge(line_total)) * 0 == 0);
}

} // verus!
