//! Positions in [`super::CANONICAL_COLUMNS`], used as keys of the header lookup table.

use vstd::prelude::*;

verus! {

pub const PARTNER_ID: usize = 0;
pub const PARTNER_NAME: usize = 1;
pub const CUSTOMER_ID: usize = 2;
pub const CUSTOMER_NAME: usize = 3;
pub const CUSTOMER_DOMAIN_NAME: usize = 4;
pub const CUSTOMER_COUNTRY: usize = 5;
pub const INVOICE_NUMBER: usize = 6;
pub const MPN_ID: usize = 7;
pub const TIER2_MPN_ID: usize = 8;
pub const ORDER_ID: usize = 9;
pub const ORDER_DATE: usize = 10;
pub const PRODUCT_ID: usize = 11;
pub const SKU_ID: usize = 12;
pub const AVAILABILITY_ID: usize = 13;
pub const SKU_NAME: usize = 14;
pub const PRODUCT_NAME: usize = 15;
pub const PUBLISHER_NAME: usize = 16;
pub const PUBLISHER_ID: usize = 17;
pub const SUBSCRIPTION_DESCRIPTION: usize = 18;
pub const SUBSCRIPTION_ID: usize = 19;
pub const CHARGE_START_DATE: usize = 20;
pub const CHARGE_END_DATE: usize = 21;
pub const TERM_AND_BILLING_CYCLE: usize = 22;
pub const EFFECTIVE_UNIT_PRICE: usize = 23;
pub const UNIT_TYPE: usize = 24;
pub const QUANTITY: usize = 25;
pub const SUBTOTAL: usize = 26;
pub const TAX_TOTAL: usize = 27;
pub const TOTAL: usize = 28;
pub const CURRENCY: usize = 29;
pub const PRICE_ADJUSTMENT_DESCRIPTION: usize = 30;
pub const PUBLISHER_DISCOUNT: usize = 31;
pub const DISCOUNT_DETAILS: usize = 32;
pub const CHARGE_TYPE: usize = 33;
pub const UNIT_PRICE: usize = 34;
pub const BILLABLE_QUANTITY: usize = 35;
pub const PRICING_CURRENCY: usize = 36;
pub const PC_TO_BC_EXCHANGE_RATE: usize = 37;
pub const PC_TO_BC_EXCHANGE_RATE_DATE: usize = 38;
pub const METER_DESCRIPTION: usize = 39;
pub const RESERVATION_ORDER_ID: usize = 40;
pub const CREDIT_REASON_CODE: usize = 41;
pub const SUBSCRIPTION_START_DATE: usize = 42;
pub const SUBSCRIPTION_END_DATE: usize = 43;
pub const REFERENCE_ID: usize = 44;
pub const PRODUCT_QUALIFIERS: usize = 45;
pub const PROMOTION_ID: usize = 46;
pub const PRODUCT_CATEGORY: usize = 47;

} // verus!
