//! The typed view of one reconciliation line.

use vstd::prelude::*;

use crate::date::{Date, DateView};
use crate::dec::{checked_mul, decimal_product, opt_view, Dec, DecView};
use crate::text::{
    alnum_lower, alnum_lower_exec, chars_of, contains, contains_text, eq_text, lower_all,
    lower_all_exec, slice_chars, string_from_chars, trim, trim_chars, lemma_trim_fixed, lemma_trim_idempotent,
};
use crate::numeric::{first_index_of, unguard_chars, unguarded};

pub mod col;

verus! {

/// The 48 canonical columns of the license-based reconciliation export, in the order
/// Microsoft emits them. Position is documentation only: the parser matches on normalised
/// *names*, because the order has changed before and will change again.
pub const CANONICAL_COLUMNS: [&'static str; 48] = [
    "PartnerId",
    "PartnerName",
    "CustomerId",
    "CustomerName",
    "CustomerDomainName",
    "CustomerCountry",
    "InvoiceNumber",
    "MpnId",
    "Tier2MpnId",
    "OrderId",
    "OrderDate",
    "ProductId",
    "SkuId",
    "AvailabilityId",
    "SkuName",
    "ProductName",
    "PublisherName",
    "PublisherId",
    "SubscriptionDescription",
    "SubscriptionId",
    "ChargeStartDate",
    "ChargeEndDate",
    "TermAndBillingCycle",
    "EffectiveUnitPrice",
    "UnitType",
    "Quantity",
    "Subtotal",
    "TaxTotal",
    "Total",
    "Currency",
    "PriceAdjustmentDescription",
    "PublisherDiscount",
    "DiscountDetails",
    "ChargeType",
    "UnitPrice",
    "BillableQuantity",
    "PricingCurrency",
    "PCToBCExchangeRate",
    "PCToBCExchangeRateDate",
    "MeterDescription",
    "ReservationOrderId",
    "CreditReasonCode",
    "SubscriptionStartDate",
    "SubscriptionEndDate",
    "ReferenceId",
    "ProductQualifiers",
    "PromotionId",
    "ProductCategory",
];

/// Columns without which no detector can say anything true. Their absence is a fatal
/// error, unlike every other kind of schema drift.
pub const REQUIRED_COLUMNS: [usize; 5] = [
    col::CUSTOMER_ID,
    col::SUBSCRIPTION_ID,
    col::CHARGE_TYPE,
    col::EFFECTIVE_UNIT_PRICE,
    col::BILLABLE_QUANTITY,
];


// ---------------------------------------------------------------------------------------
// ChargeType
// ---------------------------------------------------------------------------------------

/// What the line *is*. Matched case- and separator-insensitively: the same export has been
/// observed carrying `cycleCharge`, `cyclecharge` and `CycleCharge` in one file.
///
/// Anything unrecognised lands in [`ChargeType::Other`] with its spelling kept as written.
#[derive(Debug, Clone, PartialEq, Eq, Hash)]
pub enum ChargeType {
    /// Recurring charge for a billing cycle.
    CycleCharge,
    /// Initial purchase.
    PurchaseFee,
    /// Seats added mid-cycle (prorated).
    AddQuantity,
    /// Seats removed mid-cycle (prorated credit).
    RemoveQuantity,
    /// Subscription cancelled inside the cancellation window (credit).
    CancelImmediate,
    /// Explicit credit / refund line.
    Credit,
    /// A charge type this build does not model, kept verbatim.
    Other(String),
}

/// The plain content of a [`ChargeType`].
pub enum ChargeKind {
    CycleCharge,
    PurchaseFee,
    AddQuantity,
    RemoveQuantity,
    CancelImmediate,
    Credit,
    Other(Seq<char>),
}

impl View for ChargeType {
    type V = ChargeKind;

    open spec fn view(&self) -> ChargeKind {
        match self {
            ChargeType::CycleCharge => ChargeKind::CycleCharge,
            ChargeType::PurchaseFee => ChargeKind::PurchaseFee,
            ChargeType::AddQuantity => ChargeKind::AddQuantity,
            ChargeType::RemoveQuantity => ChargeKind::RemoveQuantity,
            ChargeType::CancelImmediate => ChargeKind::CancelImmediate,
            ChargeType::Credit => ChargeKind::Credit,
            ChargeType::Other(s) => ChargeKind::Other(s@),
        }
    }
}

/// The charge type a raw `ChargeType` cell names: its ASCII letters and digits, lowercased,
/// matched against the known spellings; anything else kept verbatim (trimmed).
pub open spec fn charge_kind_of(raw: Seq<char>) -> ChargeKind {
    let t = trim(raw);
    let n = alnum_lower(t);
    if n == "cyclecharge"@ || n == "cyclefee"@ || n == "cycleinstantfee"@ {
        ChargeKind::CycleCharge
    } else if n == "purchasefee"@ || n == "newfee"@ || n == "purchase"@ || n == "activationfee"@ {
        ChargeKind::PurchaseFee
    } else if n == "addquantity"@ || n == "addquantityfee"@ || n == "proratefeesaddquantity"@ {
        ChargeKind::AddQuantity
    } else if n == "removequantity"@ || n == "removequantityfee"@ || n == "proratefeesremovequantity"@ {
        ChargeKind::RemoveQuantity
    } else if n == "cancelimmediate"@ || n == "cancelinstant"@ || n == "cancelfee"@
        || n == "cancellationfee"@ || n == "proratefeescancel"@ {
        ChargeKind::CancelImmediate
    } else if n == "credit"@ || n == "creditmemo"@ || n == "refund"@ {
        ChargeKind::Credit
    } else {
        ChargeKind::Other(t)
    }
}

/// The direction a charge kind moves money in: `-1` gives money back to the partner.
pub open spec fn kind_sign(k: ChargeKind) -> int {
    match k {
        ChargeKind::RemoveQuantity | ChargeKind::CancelImmediate | ChargeKind::Credit => -1,
        _ => 1,
    }
}

impl ChargeType {
    /// Case- and separator-insensitive parse.
    pub fn parse(raw: &str) -> (r: ChargeType)
        ensures
            r@ == charge_kind_of(raw@),
    {
        let v = chars_of(raw);
        let t = trim_chars(&v);
        let n = alnum_lower_exec(&t, 0);
        proof {
            assert(t@.skip(0) =~= t@);
        }
        if eq_text(&n, "cyclecharge") || eq_text(&n, "cyclefee") || eq_text(&n, "cycleinstantfee") {
            ChargeType::CycleCharge
        } else if eq_text(&n, "purchasefee") || eq_text(&n, "newfee") || eq_text(&n, "purchase")
            || eq_text(&n, "activationfee") {
            ChargeType::PurchaseFee
        } else if eq_text(&n, "addquantity") || eq_text(&n, "addquantityfee")
            || eq_text(&n, "proratefeesaddquantity") {
            ChargeType::AddQuantity
        } else if eq_text(&n, "removequantity") || eq_text(&n, "removequantityfee")
            || eq_text(&n, "proratefeesremovequantity") {
            ChargeType::RemoveQuantity
        } else if eq_text(&n, "cancelimmediate") || eq_text(&n, "cancelinstant")
            || eq_text(&n, "cancelfee") || eq_text(&n, "cancellationfee")
            || eq_text(&n, "proratefeescancel") {
            ChargeType::CancelImmediate
        } else if eq_text(&n, "credit") || eq_text(&n, "creditmemo") || eq_text(&n, "refund") {
            ChargeType::Credit
        } else {
            ChargeType::Other(string_from_chars(&t))
        }
    }

    /// The direction this charge type moves money in: `-1` gives money back to the
    /// partner, `+1` takes it. The *expected* sign, not a multiplier.
    pub fn sign(&self) -> (r: i8)
        ensures
            r as int == kind_sign(self@),
    {
        match self {
            ChargeType::RemoveQuantity | ChargeType::CancelImmediate | ChargeType::Credit => -1,
            _ => 1,
        }
    }

    /// True when the line reduces what the partner owes.
    pub fn is_credit(&self) -> (r: bool)
        ensures
            r == (kind_sign(self@) < 0),
    {
        self.sign() < 0
    }

    pub fn as_str(&self) -> (r: &str)
        ensures
            r@ == kind_text(self@),
    {
        match self {
            ChargeType::CycleCharge => "cycleCharge",
            ChargeType::PurchaseFee => "purchaseFee",
            ChargeType::AddQuantity => "addQuantity",
            ChargeType::RemoveQuantity => "removeQuantity",
            ChargeType::CancelImmediate => "cancelImmediate",
            ChargeType::Credit => "credit",
            ChargeType::Other(s) => s.as_str(),
        }
    }
}


/// The spelling [`ChargeType::as_str`] gives a charge kind.
pub open spec fn kind_text(k: ChargeKind) -> Seq<char> {
    match k {
        ChargeKind::CycleCharge => "cycleCharge"@,
        ChargeKind::PurchaseFee => "purchaseFee"@,
        ChargeKind::AddQuantity => "addQuantity"@,
        ChargeKind::RemoveQuantity => "removeQuantity"@,
        ChargeKind::CancelImmediate => "cancelImmediate"@,
        ChargeKind::Credit => "credit"@,
        ChargeKind::Other(s) => s,
    }
}

proof fn lemma_spelling_cyclecharge()
    ensures
        alnum_lower(trim("cycleCharge"@)) == "cyclecharge"@,
{
    reveal_strlit("cycleCharge");
    reveal_strlit("cyclecharge");
    lemma_trim_fixed("cycleCharge"@);
    reveal_with_fuel(alnum_lower, 16);
    assert(alnum_lower("cycleCharge"@) =~= "cyclecharge"@);
}

proof fn lemma_spelling_purchasefee()
    ensures
        alnum_lower(trim("purchaseFee"@)) == "purchasefee"@,
{
    reveal_strlit("purchaseFee");
    reveal_strlit("purchasefee");
    lemma_trim_fixed("purchaseFee"@);
    reveal_with_fuel(alnum_lower, 16);
    assert(alnum_lower("purchaseFee"@) =~= "purchasefee"@);
}

proof fn lemma_spelling_addquantity()
    ensures
        alnum_lower(trim("addQuantity"@)) == "addquantity"@,
{
    reveal_strlit("addQuantity");
    reveal_strlit("addquantity");
    lemma_trim_fixed("addQuantity"@);
    reveal_with_fuel(alnum_lower, 16);
    assert(alnum_lower("addQuantity"@) =~= "addquantity"@);
}

proof fn lemma_spelling_removequantity()
    ensures
        alnum_lower(trim("removeQuantity"@)) == "removequantity"@,
{
    reveal_strlit("removeQuantity");
    reveal_strlit("removequantity");
    lemma_trim_fixed("removeQuantity"@);
    reveal_with_fuel(alnum_lower, 16);
    assert(alnum_lower("removeQuantity"@) =~= "removequantity"@);
}

proof fn lemma_spelling_cancelimmediate()
    ensures
        alnum_lower(trim("cancelImmediate"@)) == "cancelimmediate"@,
{
    reveal_strlit("cancelImmediate");
    reveal_strlit("cancelimmediate");
    lemma_trim_fixed("cancelImmediate"@);
    reveal_with_fuel(alnum_lower, 16);
    assert(alnum_lower("cancelImmediate"@) =~= "cancelimmediate"@);
}

proof fn lemma_spelling_credit()
    ensures
        alnum_lower(trim("credit"@)) == "credit"@,
{
    reveal_strlit("credit");
    reveal_strlit("credit");
    lemma_trim_fixed("credit"@);
    reveal_with_fuel(alnum_lower, 16);
    assert(alnum_lower("credit"@) =~= "credit"@);
}

/// Parsing a charge type's own spelling gives the same charge type back.
pub proof fn law_charge_type_round_trip(raw: Seq<char>)
    ensures
        charge_kind_of(kind_text(charge_kind_of(raw))) == charge_kind_of(raw),
{
    let k = charge_kind_of(raw);
    match k {
        ChargeKind::Other(t) => {
            lemma_trim_idempotent(raw);
            assert(trim(t) == t);
        },
        ChargeKind::CycleCharge => {
            lemma_spelling_cyclecharge();
            reveal_strlit("cyclecharge");
        },
        ChargeKind::PurchaseFee => {
            lemma_spelling_purchasefee();
            reveal_strlit("purchasefee");
            reveal_strlit("cyclecharge");
            assert("purchasefee"@ != "cyclecharge"@) by { assert("purchasefee"@.len() != "cyclecharge"@.len() || "purchasefee"@[0] != "cyclecharge"@[0] || "purchasefee"@[1] != "cyclecharge"@[1]); }
            reveal_strlit("cyclefee");
            assert("purchasefee"@ != "cyclefee"@) by { assert("purchasefee"@.len() != "cyclefee"@.len() || "purchasefee"@[0] != "cyclefee"@[0] || "purchasefee"@[1] != "cyclefee"@[1]); }
            reveal_strlit("cycleinstantfee");
            assert("purchasefee"@ != "cycleinstantfee"@) by { assert("purchasefee"@.len() != "cycleinstantfee"@.len() || "purchasefee"@[0] != "cycleinstantfee"@[0] || "purchasefee"@[1] != "cycleinstantfee"@[1]); }
        },
        ChargeKind::AddQuantity => {
            lemma_spelling_addquantity();
            reveal_strlit("addquantity");
            reveal_strlit("cyclecharge");
            assert("addquantity"@ != "cyclecharge"@) by { assert("addquantity"@.len() != "cyclecharge"@.len() || "addquantity"@[0] != "cyclecharge"@[0] || "addquantity"@[1] != "cyclecharge"@[1]); }
            reveal_strlit("cyclefee");
            assert("addquantity"@ != "cyclefee"@) by { assert("addquantity"@.len() != "cyclefee"@.len() || "addquantity"@[0] != "cyclefee"@[0] || "addquantity"@[1] != "cyclefee"@[1]); }
            reveal_strlit("cycleinstantfee");
            assert("addquantity"@ != "cycleinstantfee"@) by { assert("addquantity"@.len() != "cycleinstantfee"@.len() || "addquantity"@[0] != "cycleinstantfee"@[0] || "addquantity"@[1] != "cycleinstantfee"@[1]); }
            reveal_strlit("purchasefee");
            assert("addquantity"@ != "purchasefee"@) by { assert("addquantity"@.len() != "purchasefee"@.len() || "addquantity"@[0] != "purchasefee"@[0] || "addquantity"@[1] != "purchasefee"@[1]); }
            reveal_strlit("newfee");
            assert("addquantity"@ != "newfee"@) by { assert("addquantity"@.len() != "newfee"@.len() || "addquantity"@[0] != "newfee"@[0] || "addquantity"@[1] != "newfee"@[1]); }
            reveal_strlit("purchase");
            assert("addquantity"@ != "purchase"@) by { assert("addquantity"@.len() != "purchase"@.len() || "addquantity"@[0] != "purchase"@[0] || "addquantity"@[1] != "purchase"@[1]); }
            reveal_strlit("activationfee");
            assert("addquantity"@ != "activationfee"@) by { assert("addquantity"@.len() != "activationfee"@.len() || "addquantity"@[0] != "activationfee"@[0] || "addquantity"@[1] != "activationfee"@[1]); }
        },
        ChargeKind::RemoveQuantity => {
            lemma_spelling_removequantity();
            reveal_strlit("removequantity");
            reveal_strlit("cyclecharge");
            assert("removequantity"@ != "cyclecharge"@) by { assert("removequantity"@.len() != "cyclecharge"@.len() || "removequantity"@[0] != "cyclecharge"@[0] || "removequantity"@[1] != "cyclecharge"@[1]); }
            reveal_strlit("cyclefee");
            assert("removequantity"@ != "cyclefee"@) by { assert("removequantity"@.len() != "cyclefee"@.len() || "removequantity"@[0] != "cyclefee"@[0] || "removequantity"@[1] != "cyclefee"@[1]); }
            reveal_strlit("cycleinstantfee");
            assert("removequantity"@ != "cycleinstantfee"@) by { assert("removequantity"@.len() != "cycleinstantfee"@.len() || "removequantity"@[0] != "cycleinstantfee"@[0] || "removequantity"@[1] != "cycleinstantfee"@[1]); }
            reveal_strlit("purchasefee");
            assert("removequantity"@ != "purchasefee"@) by { assert("removequantity"@.len() != "purchasefee"@.len() || "removequantity"@[0] != "purchasefee"@[0] || "removequantity"@[1] != "purchasefee"@[1]); }
            reveal_strlit("newfee");
            assert("removequantity"@ != "newfee"@) by { assert("removequantity"@.len() != "newfee"@.len() || "removequantity"@[0] != "newfee"@[0] || "removequantity"@[1] != "newfee"@[1]); }
            reveal_strlit("purchase");
            assert("removequantity"@ != "purchase"@) by { assert("removequantity"@.len() != "purchase"@.len() || "removequantity"@[0] != "purchase"@[0] || "removequantity"@[1] != "purchase"@[1]); }
            reveal_strlit("activationfee");
            assert("removequantity"@ != "activationfee"@) by { assert("removequantity"@.len() != "activationfee"@.len() || "removequantity"@[0] != "activationfee"@[0] || "removequantity"@[1] != "activationfee"@[1]); }
            reveal_strlit("addquantity");
            assert("removequantity"@ != "addquantity"@) by { assert("removequantity"@.len() != "addquantity"@.len() || "removequantity"@[0] != "addquantity"@[0] || "removequantity"@[1] != "addquantity"@[1]); }
            reveal_strlit("addquantityfee");
            assert("removequantity"@ != "addquantityfee"@) by { assert("removequantity"@.len() != "addquantityfee"@.len() || "removequantity"@[0] != "addquantityfee"@[0] || "removequantity"@[1] != "addquantityfee"@[1]); }
            reveal_strlit("proratefeesaddquantity");
            assert("removequantity"@ != "proratefeesaddquantity"@) by { assert("removequantity"@.len() != "proratefeesaddquantity"@.len() || "removequantity"@[0] != "proratefeesaddquantity"@[0] || "removequantity"@[1] != "proratefeesaddquantity"@[1]); }
        },
        ChargeKind::CancelImmediate => {
            lemma_spelling_cancelimmediate();
            reveal_strlit("cancelimmediate");
            reveal_strlit("cyclecharge");
            assert("cancelimmediate"@ != "cyclecharge"@) by { assert("cancelimmediate"@.len() != "cyclecharge"@.len() || "cancelimmediate"@[0] != "cyclecharge"@[0] || "cancelimmediate"@[1] != "cyclecharge"@[1]); }
            reveal_strlit("cyclefee");
            assert("cancelimmediate"@ != "cyclefee"@) by { assert("cancelimmediate"@.len() != "cyclefee"@.len() || "cancelimmediate"@[0] != "cyclefee"@[0] || "cancelimmediate"@[1] != "cyclefee"@[1]); }
            reveal_strlit("cycleinstantfee");
            assert("cancelimmediate"@ != "cycleinstantfee"@) by { assert("cancelimmediate"@.len() != "cycleinstantfee"@.len() || "cancelimmediate"@[0] != "cycleinstantfee"@[0] || "cancelimmediate"@[1] != "cycleinstantfee"@[1]); }
            reveal_strlit("purchasefee");
            assert("cancelimmediate"@ != "purchasefee"@) by { assert("cancelimmediate"@.len() != "purchasefee"@.len() || "cancelimmediate"@[0] != "purchasefee"@[0] || "cancelimmediate"@[1] != "purchasefee"@[1]); }
            reveal_strlit("newfee");
            assert("cancelimmediate"@ != "newfee"@) by { assert("cancelimmediate"@.len() != "newfee"@.len() || "cancelimmediate"@[0] != "newfee"@[0] || "cancelimmediate"@[1] != "newfee"@[1]); }
            reveal_strlit("purchase");
            assert("cancelimmediate"@ != "purchase"@) by { assert("cancelimmediate"@.len() != "purchase"@.len() || "cancelimmediate"@[0] != "purchase"@[0] || "cancelimmediate"@[1] != "purchase"@[1]); }
            reveal_strlit("activationfee");
            assert("cancelimmediate"@ != "activationfee"@) by { assert("cancelimmediate"@.len() != "activationfee"@.len() || "cancelimmediate"@[0] != "activationfee"@[0] || "cancelimmediate"@[1] != "activationfee"@[1]); }
            reveal_strlit("addquantity");
            assert("cancelimmediate"@ != "addquantity"@) by { assert("cancelimmediate"@.len() != "addquantity"@.len() || "cancelimmediate"@[0] != "addquantity"@[0] || "cancelimmediate"@[1] != "addquantity"@[1]); }
            reveal_strlit("addquantityfee");
            assert("cancelimmediate"@ != "addquantityfee"@) by { assert("cancelimmediate"@.len() != "addquantityfee"@.len() || "cancelimmediate"@[0] != "addquantityfee"@[0] || "cancelimmediate"@[1] != "addquantityfee"@[1]); }
            reveal_strlit("proratefeesaddquantity");
            assert("cancelimmediate"@ != "proratefeesaddquantity"@) by { assert("cancelimmediate"@.len() != "proratefeesaddquantity"@.len() || "cancelimmediate"@[0] != "proratefeesaddquantity"@[0] || "cancelimmediate"@[1] != "proratefeesaddquantity"@[1]); }
            reveal_strlit("removequantity");
            assert("cancelimmediate"@ != "removequantity"@) by { assert("cancelimmediate"@.len() != "removequantity"@.len() || "cancelimmediate"@[0] != "removequantity"@[0] || "cancelimmediate"@[1] != "removequantity"@[1]); }
            reveal_strlit("removequantityfee");
            assert("cancelimmediate"@ != "removequantityfee"@) by { assert("cancelimmediate"@.len() != "removequantityfee"@.len() || "cancelimmediate"@[0] != "removequantityfee"@[0] || "cancelimmediate"@[1] != "removequantityfee"@[1]); }
            reveal_strlit("proratefeesremovequantity");
            assert("cancelimmediate"@ != "proratefeesremovequantity"@) by { assert("cancelimmediate"@.len() != "proratefeesremovequantity"@.len() || "cancelimmediate"@[0] != "proratefeesremovequantity"@[0] || "cancelimmediate"@[1] != "proratefeesremovequantity"@[1]); }
        },
        ChargeKind::Credit => {
            lemma_spelling_credit();
            reveal_strlit("credit");
            reveal_strlit("cyclecharge");
            assert("credit"@ != "cyclecharge"@) by { assert("credit"@.len() != "cyclecharge"@.len() || "credit"@[0] != "cyclecharge"@[0] || "credit"@[1] != "cyclecharge"@[1]); }
            reveal_strlit("cyclefee");
            assert("credit"@ != "cyclefee"@) by { assert("credit"@.len() != "cyclefee"@.len() || "credit"@[0] != "cyclefee"@[0] || "credit"@[1] != "cyclefee"@[1]); }
            reveal_strlit("cycleinstantfee");
            assert("credit"@ != "cycleinstantfee"@) by { assert("credit"@.len() != "cycleinstantfee"@.len() || "credit"@[0] != "cycleinstantfee"@[0] || "credit"@[1] != "cycleinstantfee"@[1]); }
            reveal_strlit("purchasefee");
            assert("credit"@ != "purchasefee"@) by { assert("credit"@.len() != "purchasefee"@.len() || "credit"@[0] != "purchasefee"@[0] || "credit"@[1] != "purchasefee"@[1]); }
            reveal_strlit("newfee");
            assert("credit"@ != "newfee"@) by { assert("credit"@.len() != "newfee"@.len() || "credit"@[0] != "newfee"@[0] || "credit"@[1] != "newfee"@[1]); }
            reveal_strlit("purchase");
            assert("credit"@ != "purchase"@) by { assert("credit"@.len() != "purchase"@.len() || "credit"@[0] != "purchase"@[0] || "credit"@[1] != "purchase"@[1]); }
            reveal_strlit("activationfee");
            assert("credit"@ != "activationfee"@) by { assert("credit"@.len() != "activationfee"@.len() || "credit"@[0] != "activationfee"@[0] || "credit"@[1] != "activationfee"@[1]); }
            reveal_strlit("addquantity");
            assert("credit"@ != "addquantity"@) by { assert("credit"@.len() != "addquantity"@.len() || "credit"@[0] != "addquantity"@[0] || "credit"@[1] != "addquantity"@[1]); }
            reveal_strlit("addquantityfee");
            assert("credit"@ != "addquantityfee"@) by { assert("credit"@.len() != "addquantityfee"@.len() || "credit"@[0] != "addquantityfee"@[0] || "credit"@[1] != "addquantityfee"@[1]); }
            reveal_strlit("proratefeesaddquantity");
            assert("credit"@ != "proratefeesaddquantity"@) by { assert("credit"@.len() != "proratefeesaddquantity"@.len() || "credit"@[0] != "proratefeesaddquantity"@[0] || "credit"@[1] != "proratefeesaddquantity"@[1]); }
            reveal_strlit("removequantity");
            assert("credit"@ != "removequantity"@) by { assert("credit"@.len() != "removequantity"@.len() || "credit"@[0] != "removequantity"@[0] || "credit"@[1] != "removequantity"@[1]); }
            reveal_strlit("removequantityfee");
            assert("credit"@ != "removequantityfee"@) by { assert("credit"@.len() != "removequantityfee"@.len() || "credit"@[0] != "removequantityfee"@[0] || "credit"@[1] != "removequantityfee"@[1]); }
            reveal_strlit("proratefeesremovequantity");
            assert("credit"@ != "proratefeesremovequantity"@) by { assert("credit"@.len() != "proratefeesremovequantity"@.len() || "credit"@[0] != "proratefeesremovequantity"@[0] || "credit"@[1] != "proratefeesremovequantity"@[1]); }
            reveal_strlit("cancelimmediate");
            assert("credit"@ != "cancelimmediate"@) by { assert("credit"@.len() != "cancelimmediate"@.len() || "credit"@[0] != "cancelimmediate"@[0] || "credit"@[1] != "cancelimmediate"@[1]); }
            reveal_strlit("cancelinstant");
            assert("credit"@ != "cancelinstant"@) by { assert("credit"@.len() != "cancelinstant"@.len() || "credit"@[0] != "cancelinstant"@[0] || "credit"@[1] != "cancelinstant"@[1]); }
            reveal_strlit("cancelfee");
            assert("credit"@ != "cancelfee"@) by { assert("credit"@.len() != "cancelfee"@.len() || "credit"@[0] != "cancelfee"@[0] || "credit"@[1] != "cancelfee"@[1]); }
            reveal_strlit("cancellationfee");
            assert("credit"@ != "cancellationfee"@) by { assert("credit"@.len() != "cancellationfee"@.len() || "credit"@[0] != "cancellationfee"@[0] || "credit"@[1] != "cancellationfee"@[1]); }
            reveal_strlit("proratefeescancel");
            assert("credit"@ != "proratefeescancel"@) by { assert("credit"@.len() != "proratefeescancel"@.len() || "credit"@[0] != "proratefeescancel"@[0] || "credit"@[1] != "proratefeescancel"@[1]); }
        },
    }
}

// ---------------------------------------------------------------------------------------
// ReferenceId
// ---------------------------------------------------------------------------------------

/// `ReferenceId` changed shape mid-2026: it used to be a scalar, now it is a JSON object.
/// Both forms appear in the same account, so both have to be readable forever.
#[derive(Debug, Clone, PartialEq, Eq)]
pub enum ReferenceId {
    /// Empty cell.
    Absent,
    /// Pre-June-2026 scalar, or a JSON-looking value that failed to parse (kept verbatim
    /// rather than thrown away).
    Legacy(String),
    /// Post-June-2026 object form: `{"osId":"...","id":"...","v":2}`.
    V2 { os_id: Option<String>, id: Option<String>, v: i64 },
}

/// The fields of the object form of `ReferenceId`, as a JSON decoder hands them over:
/// `osId` and `id` absent or `null` become `None`, an absent `v` becomes `0`.
#[derive(Debug, Clone, PartialEq, Eq)]
pub struct ReferenceIdFields {
    pub os_id: Option<String>,
    pub id: Option<String>,
    pub v: i64,
}

/// The view of an optional text.
pub open spec fn opt_text(s: Option<String>) -> Option<Seq<char>> {
    match s {
        Some(t) => Some(t@),
        None => None,
    }
}

/// The plain content of a [`ReferenceId`].
pub enum ReferenceIdView {
    Absent,
    Legacy(Seq<char>),
    V2 { os_id: Option<Seq<char>>, id: Option<Seq<char>>, v: int },
}

impl View for ReferenceId {
    type V = ReferenceIdView;

    open spec fn view(&self) -> ReferenceIdView {
        match self {
            ReferenceId::Absent => ReferenceIdView::Absent,
            ReferenceId::Legacy(s) => ReferenceIdView::Legacy(s@),
            ReferenceId::V2 { os_id, id, v } => ReferenceIdView::V2 { os_id: opt_text(*os_id), id: opt_text(*id), v: *v as int },
        }
    }
}

/// The bare text of a `ReferenceId` cell, when it looks like JSON (starts with `{`).
pub open spec fn reference_json_text(raw: Seq<char>) -> Option<Seq<char>> {
    let s = unguarded(raw);
    if s.len() > 0 && s[0] == '{' { Some(s) } else { None }
}

/// What a `ReferenceId` cell reads as, given the result of decoding its JSON text (when
/// there is one): `(value, json_failed)`.
pub open spec fn reference_id_of(raw: Seq<char>, decoded: Option<ReferenceIdFields>) -> (ReferenceIdView, bool) {
    let s = unguarded(raw);
    if s.len() == 0 {
        (ReferenceIdView::Absent, false)
    } else if s[0] == '{' {
        match decoded {
            Some(f) => (ReferenceIdView::V2 { os_id: opt_text(f.os_id), id: opt_text(f.id), v: f.v as int }, false),
            None => (ReferenceIdView::Legacy(s), true),
        }
    } else {
        (ReferenceIdView::Legacy(s), false)
    }
}

impl ReferenceId {
    /// The bare text of the cell when it is in the object form and has to be decoded as
    /// JSON; `None` for an empty cell or a scalar.
    pub fn json_text(raw: &str) -> (r: Option<String>)
        ensures
            opt_text(r) == reference_json_text(raw@),
    {
        let v = chars_of(raw);
        let s = unguard_chars(&v);
        if s.len() > 0 && s[0] == '{' {
            Some(string_from_chars(&s))
        } else {
            None
        }
    }

    /// Parse a `ReferenceId` cell. `decoded` is the JSON decoding of [`ReferenceId::json_text`]
    /// (`None` when that text is not a valid object of this shape, or when there is none).
    /// Returns `(value, json_failed)`: a failed decode is downgraded to
    /// [`ReferenceId::Legacy`] and reported as a non-fatal row error.
    pub fn parse(raw: &str, decoded: Option<ReferenceIdFields>) -> (r: (ReferenceId, bool))
        ensures
            (r.0@, r.1) == reference_id_of(raw@, decoded),
    {
        let v = chars_of(raw);
        let s = unguard_chars(&v);
        if s.len() == 0 {
            return (ReferenceId::Absent, false);
        }
        if s[0] == '{' {
            return match decoded {
                Some(f) => (ReferenceId::V2 { os_id: f.os_id, id: f.id, v: f.v }, false),
                None => (ReferenceId::Legacy(string_from_chars(&s)), true),
            };
        }
        (ReferenceId::Legacy(string_from_chars(&s)), false)
    }

    /// The identifier itself, whichever shape it arrived in.
    pub fn id(&self) -> (r: Option<&str>)
        ensures
            (match r {
                Some(t) => Some(t@),
                None => None,
            }) == (match self@ {
                ReferenceIdView::Absent => None,
                ReferenceIdView::Legacy(s) => Some(s),
                ReferenceIdView::V2 { id, .. } => id,
            }),
    {
        match self {
            ReferenceId::Absent => None,
            ReferenceId::Legacy(s) => Some(s.as_str()),
            ReferenceId::V2 { id, .. } => match id {
                Some(t) => Some(t.as_str()),
                None => None,
            },
        }
    }

    pub fn is_absent(&self) -> (r: bool)
        ensures
            r == (self@ is Absent),
    {
        match self {
            ReferenceId::Absent => true,
            _ => false,
        }
    }
}

// ---------------------------------------------------------------------------------------
// Term
// ---------------------------------------------------------------------------------------

/// Commitment length. Drives whether a finding is actionable today.
#[derive(Debug, Clone, Copy, PartialEq, Eq, Hash, Structural)]
pub enum TermDuration {
    Monthly,
    Annual,
    Triennial,
    Unknown,
}

/// How often the partner is invoiced. Independent of the commitment length: "annual term,
/// monthly billing" is the most common NCE shape and the one most often misread.
#[derive(Debug, Clone, Copy, PartialEq, Eq, Hash, Structural)]
pub enum BillingCycle {
    Monthly,
    Annual,
    Triennial,
    OneTime,
    Unknown,
}

/// Parsed `TermAndBillingCycle`, e.g. `"Annual term, Monthly billing"`.
#[derive(Debug, Clone, Copy, PartialEq, Eq, Hash, Structural)]
pub struct BillingTerm {
    pub duration: TermDuration,
    pub cycle: BillingCycle,
}

/// The text before the first `,` of `s` (all of `s` when there is none).
pub open spec fn first_part(s: Seq<char>) -> Seq<char> {
    match first_index_of(s, ',') {
        Some(i) => s.take(i),
        None => s,
    }
}

/// The text between the first and the second `,` of `s` (empty when `s` has no `,`).
pub open spec fn second_part(s: Seq<char>) -> Seq<char> {
    match first_index_of(s, ',') {
        Some(i) => first_part(s.skip(i + 1)),
        None => Seq::empty(),
    }
}

/// Commitment length named by the term half of `TermAndBillingCycle` (lowercased).
pub open spec fn duration_of(t: Seq<char>) -> TermDuration {
    if contains(t, "triennial"@) || contains(t, "36"@) {
        TermDuration::Triennial
    } else if contains(t, "annual"@) || contains(t, "yearly"@) {
        TermDuration::Annual
    } else if contains(t, "month"@) {
        TermDuration::Monthly
    } else {
        TermDuration::Unknown
    }
}

/// Billing cycle named by the billing half of `TermAndBillingCycle` (lowercased).
pub open spec fn cycle_of(c: Seq<char>) -> BillingCycle {
    if contains(c, "triennial"@) {
        BillingCycle::Triennial
    } else if contains(c, "annual"@) || contains(c, "yearly"@) {
        BillingCycle::Annual
    } else if contains(c, "month"@) {
        BillingCycle::Monthly
    } else if contains(c, "one"@) || contains(c, "once"@) {
        BillingCycle::OneTime
    } else {
        BillingCycle::Unknown
    }
}

/// What `"<X> term, <Y> billing"` parses to: keyword scans over the two comma-separated
/// halves of the lowercased text.
pub open spec fn billing_term_of(raw: Seq<char>) -> BillingTerm {
    let lower = lower_all(raw);
    BillingTerm { duration: duration_of(first_part(lower)), cycle: cycle_of(second_part(lower)) }
}

/// Position of the first `,` in `v` at or after `from` (`v.len()` when there is none).
fn find_comma(v: &Vec<char>, from: usize) -> (i: usize)
    requires
        from <= v.len(),
    ensures
        from <= i <= v.len(),
        forall|k: int| from <= k < i ==> v@[k] != ',',
        i < v.len() ==> v@[i as int] == ',',
{
    let mut i = from;
    while i < v.len() && v[i] != ','
        invariant
            from <= i <= v.len(),
            forall|k: int| from <= k < i ==> v@[k] != ',',
        decreases v.len() - i,
    {
        i = i + 1;
    }
    i
}

proof fn lemma_first_comma(s: Seq<char>, i: int)
    requires
        0 <= i <= s.len(),
        forall|k: int| 0 <= k < i ==> s[k] != ',',
        i < s.len() ==> s[i] == ',',
    ensures
        i < s.len() ==> first_index_of(s, ',') == Some(i),
        i == s.len() ==> first_index_of(s, ',') is None,
    decreases i,
{
    if i > 0 {
        lemma_first_comma(s.drop_first(), i - 1);
    }
}

impl BillingTerm {
    /// Neither half recognised.
    pub fn unknown() -> (r: BillingTerm)
        ensures
            r == (BillingTerm { duration: TermDuration::Unknown, cycle: BillingCycle::Unknown }),
    {
        BillingTerm { duration: TermDuration::Unknown, cycle: BillingCycle::Unknown }
    }

    /// Split `"<X> term, <Y> billing"` into its two halves. Free text, so this is a keyword
    /// scan rather than a grammar.
    pub fn parse(raw: &str) -> (r: BillingTerm)
        ensures
            r == billing_term_of(raw@),
    {
        let v = chars_of(raw);
        let lower = lower_all_exec(&v);
        let c1 = find_comma(&lower, 0);
        proof {
            lemma_first_comma(lower@, c1 as int);
        }
        let term_part = slice_chars(&lower, 0, c1);
        let cycle_part = if c1 < lower.len() {
            let c2 = find_comma(&lower, c1 + 1);
            proof {
                let rest = lower@.skip(c1 + 1);
                assert forall|k: int| 0 <= k < c2 - (c1 + 1) implies rest[k] != ',' by {
                    assert(rest[k] == lower@[c1 + 1 + k]);
                }
                if c2 < lower.len() {
                    assert(rest[c2 - (c1 + 1)] == lower@[c2 as int]);
                }
                lemma_first_comma(rest, c2 - (c1 + 1));
                assert(lower@.subrange(c1 + 1, c2 as int) =~= first_part(rest));
            }
            slice_chars(&lower, c1 + 1, c2)
        } else {
            Vec::new()
        };
        proof {
            assert(term_part@ =~= first_part(lower@));
            assert(cycle_part@ =~= second_part(lower@));
        }
        let duration = if contains_text(&term_part, "triennial") || contains_text(&term_part, "36") {
            TermDuration::Triennial
        } else if contains_text(&term_part, "annual") || contains_text(&term_part, "yearly") {
            TermDuration::Annual
        } else if contains_text(&term_part, "month") {
            TermDuration::Monthly
        } else {
            TermDuration::Unknown
        };
        let cycle = if contains_text(&cycle_part, "triennial") {
            BillingCycle::Triennial
        } else if contains_text(&cycle_part, "annual") || contains_text(&cycle_part, "yearly") {
            BillingCycle::Annual
        } else if contains_text(&cycle_part, "month") {
            BillingCycle::Monthly
        } else if contains_text(&cycle_part, "one") || contains_text(&cycle_part, "once") {
            BillingCycle::OneTime
        } else {
            BillingCycle::Unknown
        };
        BillingTerm { duration, cycle }
    }
}

/// When the partner can actually act on a finding.
///
/// Every finding must carry one. A recommendation that cannot be executed is worse than no
/// finding at all.
#[derive(Debug, Clone, Copy, PartialEq, Eq, Hash, Structural)]
pub enum RemediationWindow {
    /// Actionable today.
    Now,
    /// Locked in until the commitment ends; schedule the change now, it applies later.
    AtRenewal,
    /// Nothing can be done. Informational only.
    Never,
}

impl RemediationWindow {
    pub fn as_str(self) -> (r: &'static str)
        ensures
            r@ == (match self {
                RemediationWindow::Now => "NOW"@,
                RemediationWindow::AtRenewal => "AT_RENEWAL"@,
                RemediationWindow::Never => "NEVER"@,
            }),
    {
        match self {
            RemediationWindow::Now => "NOW",
            RemediationWindow::AtRenewal => "AT_RENEWAL",
            RemediationWindow::Never => "NEVER",
        }
    }
}


// ---------------------------------------------------------------------------------------
// ReconRow
// ---------------------------------------------------------------------------------------

/// One reconciliation line, typed.
#[derive(Debug, Clone, PartialEq)]
pub struct ReconRow {
    /// Zero-based index of the data record within the file (header excluded). This is the
    /// evidence anchor: every finding points back here.
    pub record_index: u64,

    pub partner_id: String,
    pub customer_id: String,
    pub customer_name: String,
    pub customer_domain_name: String,
    pub customer_country: String,
    pub invoice_number: String,
    pub order_id: String,

    pub product_id: String,
    pub sku_id: String,
    pub availability_id: String,
    pub sku_name: String,
    pub product_name: String,

    pub subscription_id: String,
    pub subscription_description: String,
    pub subscription_start_date: Option<Date>,
    pub subscription_end_date: Option<Date>,

    pub charge_start_date: Option<Date>,
    pub charge_end_date: Option<Date>,
    pub charge_type: ChargeType,

    /// Raw `TermAndBillingCycle` text, kept for evidence.
    pub term_and_billing_cycle: String,
    /// Parsed form of the above.
    pub term: BillingTerm,

    /// List price before adjustments.
    pub unit_price: Option<Dec>,
    /// **The price actually charged.** All cost maths uses this, never `unit_price`.
    pub effective_unit_price: Option<Dec>,
    /// Seats on the subscription. Informational.
    pub quantity: Option<Dec>,
    /// **The seats actually billed on this line.** All cost maths uses this, never
    /// `quantity`.
    pub billable_quantity: Option<Dec>,
    pub subtotal: Option<Dec>,
    pub tax_total: Option<Dec>,
    pub total: Option<Dec>,

    pub unit_type: String,
    pub currency: String,
    pub pricing_currency: String,
    pub pc_to_bc_exchange_rate: Option<Dec>,

    pub price_adjustment_description: String,
    pub promotion_id: String,
    pub product_category: String,
    pub reference_id: ReferenceId,

    /// Columns present in the file that this build does not know about, as
    /// `(header, value)`. Filled only when unknown-column capture is requested.
    pub unknown: Vec<(String, String)>,
}

/// Inclusive day count of a charge period, when both ends are known.
pub open spec fn charge_days_of(start: Option<Date>, end: Option<Date>) -> Option<int> {
    match (start, end) {
        (Some(s), Some(e)) => Some(e@.day_number() - s@.day_number() + 1),
        _ => None,
    }
}

/// `q` forced to agree with a charge direction: negative magnitude for credits, unchanged
/// otherwise.
pub open spec fn signed_quantity(q: DecView, sign: int) -> DecView {
    if sign < 0 {
        DecView { negative: true, ..q }
    } else {
        q
    }
}

impl ReconRow {
    /// Length of the charge period in whole days, inclusive of both endpoints.
    pub fn charge_days(&self) -> (r: Option<i64>)
        ensures
            (match r {
                Some(d) => Some(d as int),
                None => None,
            }) == charge_days_of(self.charge_start_date, self.charge_end_date),
    {
        match (&self.charge_start_date, &self.charge_end_date) {
            (Some(s), Some(e)) => {
                s.check_valid();
                e.check_valid();
                proof {
                    lemma_day_number_bounds(s@);
                    lemma_day_number_bounds(e@);
                }
                Some(s.days_until(e) + 1)
            },
            _ => None,
        }
    }

    /// True when the charge period covers roughly one calendar month (28 to 31 days).
    pub fn is_full_month_period(&self) -> (r: bool)
        ensures
            r == (charge_days_of(self.charge_start_date, self.charge_end_date) matches Some(d) && 28 <= d <= 31),
    {
        match self.charge_days() {
            Some(d) => 28 <= d && d <= 31,
            None => false,
        }
    }

    /// `billable_quantity` forced to agree with the charge type's direction. Normalises
    /// instead of multiplying, so a credit that already arrives negative stays negative.
    pub fn signed_billable_quantity(&self) -> (r: Option<Dec>)
        ensures
            opt_view(r) == (match self.billable_quantity {
                Some(q) => Some(signed_quantity(q@, kind_sign(self.charge_type@))),
                None => None,
            }),
    {
        match &self.billable_quantity {
            Some(q) => {
                if self.charge_type.sign() < 0 {
                    Some(q.abs().neg())
                } else {
                    Some(*q)
                }
            },
            None => None,
        }
    }

    /// Cost of this line at the effective rate: `EffectiveUnitPrice x BillableQuantity`
    /// (signed), through `Decimal::checked_mul`; `None` when either is absent or the product
    /// overflows.
    pub fn extended_cost(&self) -> (r: Option<Dec>)
        ensures
            opt_view(r) == (match (self.effective_unit_price, self.billable_quantity) {
                (Some(p), Some(q)) => decimal_product(p@, signed_quantity(q@, kind_sign(self.charge_type@))),
                _ => None,
            }),
    {
        let p = match &self.effective_unit_price {
            Some(p) => *p,
            None => return None,
        };
        let q = match self.signed_billable_quantity() {
            Some(q) => q,
            None => return None,
        };
        checked_mul(p, q)
    }

    /// The pair that identifies a paid-for entitlement: `(customer_id, subscription_id)`.
    pub fn subscription_key(&self) -> (r: (&str, &str))
        ensures
            r.0@ == self.customer_id@,
            r.1@ == self.subscription_id@,
    {
        (self.customer_id.as_str(), self.subscription_id.as_str())
    }
}

/// Day numbers of valid dates stay far inside `i64`.
pub proof fn lemma_day_number_bounds(d: DateView)
    requires
        d.valid(),
    ensures
        -100_000_000 < d.day_number() < 100_000_000,
{
}

impl Default for ReconRow {
    fn default() -> (r: ReconRow)
        ensures
            r.record_index == 0,
            r.charge_type@ == ChargeKind::Other(Seq::empty()),
            r.term == (BillingTerm { duration: TermDuration::Unknown, cycle: BillingCycle::Unknown }),
            r.reference_id@ is Absent,
            r.unknown@.len() == 0,
            r.partner_id@.len() == 0,
            r.customer_id@.len() == 0,
            r.customer_name@.len() == 0,
            r.customer_domain_name@.len() == 0,
            r.customer_country@.len() == 0,
            r.invoice_number@.len() == 0,
            r.order_id@.len() == 0,
            r.product_id@.len() == 0,
            r.sku_id@.len() == 0,
            r.availability_id@.len() == 0,
            r.sku_name@.len() == 0,
            r.product_name@.len() == 0,
            r.subscription_id@.len() == 0,
            r.subscription_description@.len() == 0,
            r.term_and_billing_cycle@.len() == 0,
            r.unit_type@.len() == 0,
            r.currency@.len() == 0,
            r.pricing_currency@.len() == 0,
            r.price_adjustment_description@.len() == 0,
            r.promotion_id@.len() == 0,
            r.product_category@.len() == 0,
            r.subscription_start_date is None,
            r.subscription_end_date is None,
            r.charge_start_date is None,
            r.charge_end_date is None,
            r.unit_price is None,
            r.effective_unit_price is None,
            r.quantity is None,
            r.billable_quantity is None,
            r.subtotal is None,
            r.tax_total is None,
            r.total is None,
            r.pc_to_bc_exchange_rate is None,
    {
        ReconRow {
            record_index: 0,
            partner_id: String::new(),
            customer_id: String::new(),
            customer_name: String::new(),
            customer_domain_name: String::new(),
            customer_country: String::new(),
            invoice_number: String::new(),
            order_id: String::new(),
            product_id: String::new(),
            sku_id: String::new(),
            availability_id: String::new(),
            sku_name: String::new(),
            product_name: String::new(),
            subscription_id: String::new(),
            subscription_description: String::new(),
            subscription_start_date: None,
            subscription_end_date: None,
            charge_start_date: None,
            charge_end_date: None,
            charge_type: ChargeType::Other(String::new()),
            term_and_billing_cycle: String::new(),
            term: BillingTerm::unknown(),
            unit_price: None,
            effective_unit_price: None,
            quantity: None,
            billable_quantity: None,
            subtotal: None,
            tax_total: None,
            total: None,
            unit_type: String::new(),
            currency: String::new(),
            pricing_currency: String::new(),
            pc_to_bc_exchange_rate: None,
            price_adjustment_description: String::new(),
            promotion_id: String::new(),
            product_category: String::new(),
            reference_id: ReferenceId::Absent,
            unknown: Vec::new(),
        }
    }
}

} // verus!
