//! `EST_UPLIFT`: Extended Service Terms penalty detection.
//!
//! Since 4 May 2026 a CSP subscription that is neither renewed nor cancelled no longer sits
//! in a free grace period: it rolls onto an **Extended Service Term**, a monthly term
//! charged at a premium over list (+3% when the SKU has a monthly plan, +23% when it does
//! not). The subscription keeps working and the seat count does not move, so the uplift
//! goes unnoticed on a line that looks like last month's.
//!
//! Two independent signals are used, because the prose field is not always populated:
//!
//! 1. **Declared**: `PriceAdjustmentDescription` names Extended Service Terms; the rate is
//!    read out of the text when it is there.
//! 2. **Price ratio**: `EffectiveUnitPrice / UnitPrice` lands on `1 + rate` within
//!    tolerance.
//!
//! Both firing is the strong case (confidence 1.00). The ratio alone is suggestive but not
//! proof and is reported at 0.75. The rates live in a table keyed by effective date, so
//! reprocessing an old file does not apply newer rules to it.

use vstd::prelude::*;

use crate::date::{Date, DateView};
use crate::dec::{
    pow10, checked_add, checked_div, checked_mul, checked_sub, decimal_difference, decimal_product,
    decimal_quotient, decimal_saturating_sum, decimal_sum, opt_view, saturating_add, Dec, DecView,
};
use crate::numeric::{first_percentage, percentage_of};
use crate::text::{chars_of, contains, contains_text, lower_all, lower_all_exec, string_from_chars};
use crate::types::{
    charge_days_of, kind_sign, signed_quantity, ReconRow, RemediationWindow, TermDuration,
};

verus! {

/// One uplift rate that EST can apply.
#[derive(Debug, Clone, Copy, PartialEq)]
pub struct EstRate {
    /// Fraction over list, e.g. `0.23`.
    pub rate: Dec,
    /// Why this rate applies. Shown verbatim to the user.
    pub reason: &'static str,
}

/// Versioned Extended Service Terms policy, as [`EstPolicy::table`] dates it.
#[derive(Debug, Clone)]
pub struct EstPolicy {
    /// First charge date this policy applies to.
    pub effective_from: Date,
    /// Uplift rates in force.
    pub rates: Vec<EstRate>,
    /// How far `EffectiveUnitPrice / UnitPrice` may sit from `1 + rate` and still count.
    pub ratio_tolerance: Dec,
    /// Lowercased substrings that identify an EST line in `PriceAdjustmentDescription`.
    pub description_markers: Vec<&'static str>,
    /// Findings whose monthly run rate is below this are kept but excluded from the
    /// headline total.
    pub noise_threshold_monthly: Dec,
    /// Days per month used to scale non-monthly charge periods.
    pub avg_days_per_month: Dec,
}

/// A decimal given by its parts.
pub open spec fn dv(negative: bool, magnitude: nat, scale: nat) -> DecView {
    DecView { negative, magnitude, scale }
}

/// The policy that abolished the grace period: in force from 2026-05-04.
pub open spec fn policy_2026_05(p: EstPolicy) -> bool {
    &&& p.effective_from@ == (DateView { year: 2026, month: 5, day: 4 })
    &&& p.rates@.len() == 2
    &&& p.rates@[0].rate@ == dv(false, 3, 2)
    &&& p.rates@[0].reason@ == "Extended Service Term surcharge over monthly list price"@
    &&& p.rates@[1].rate@ == dv(false, 23, 2)
    &&& p.rates@[1].reason@ == "no monthly plan exists for this SKU"@
    &&& p.ratio_tolerance@ == dv(false, 5, 4)
    &&& p.description_markers@.len() == 3
    &&& p.description_markers@[0]@ == "extended service terms"@
    &&& p.description_markers@[1]@ == "extended service term"@
    &&& p.description_markers@[2]@ == "est fee"@
    &&& p.noise_threshold_monthly@ == dv(false, 5, 0)
    &&& p.avg_days_per_month@ == dv(false, 30436875, 6)
}

impl EstPolicy {
    /// The first policy of the table.
    fn est_2026_05() -> (p: EstPolicy)
        ensures
            policy_2026_05(p),
    {
        proof {
            assert((DateView { year: 2026, month: 5, day: 4 }).valid());
        }
        let effective_from = Date::from_ymd_opt(2026, 5, 4).unwrap();
        let mut rates: Vec<EstRate> = Vec::new();
        rates.push(EstRate { rate: Dec::new(3, 2), reason: "Extended Service Term surcharge over monthly list price" });
        rates.push(EstRate { rate: Dec::new(23, 2), reason: "no monthly plan exists for this SKU" });
        let mut description_markers: Vec<&'static str> = Vec::new();
        description_markers.push("extended service terms");
        description_markers.push("extended service term");
        description_markers.push("est fee");
        EstPolicy {
            effective_from,
            rates,
            ratio_tolerance: Dec::new(5, 4),
            description_markers,
            noise_threshold_monthly: Dec::new(5, 0),
            avg_days_per_month: Dec::new(30436875, 6),
        }
    }

    /// The policy table, oldest first. Add a row; never edit one in place.
    pub fn table() -> (t: Vec<EstPolicy>)
        ensures
            t@.len() == 1,
            policy_2026_05(t@[0]),
    {
        let mut t: Vec<EstPolicy> = Vec::new();
        t.push(EstPolicy::est_2026_05());
        t
    }
}

/// `rate` lies within `tol` of `value`: `|rate - value| <= tol`, the difference taken with
/// `Decimal::checked_sub` (a difference that overflows matches nothing).
pub open spec fn within(rate: DecView, value: DecView, tol: DecView) -> bool {
    match decimal_difference(rate, value) {
        Some(d) => d.abs_units() <= tol.units(),
        None => false,
    }
}

/// The first rate of `rates`, from index `i` on, within `tol` of `value`.
pub open spec fn first_rate_within(rates: Seq<EstRate>, value: DecView, tol: DecView, i: int) -> Option<int>
    decreases rates.len() - i,
{
    if i < 0 || i >= rates.len() {
        None
    } else if within(rates[i].rate@, value, tol) {
        Some(i)
    } else {
        first_rate_within(rates, value, tol, i + 1)
    }
}

proof fn lemma_first_rate_within_bounds(rates: Seq<EstRate>, value: DecView, tol: DecView, i: int)
    ensures
        first_rate_within(rates, value, tol, i) matches Some(k) ==> 0 <= i <= k < rates.len() && within(rates[k].rate@, value, tol),
    decreases rates.len() - i,
{
    if 0 <= i < rates.len() && !within(rates[i].rate@, value, tol) {
        lemma_first_rate_within_bounds(rates, value, tol, i + 1);
    }
}

impl EstPolicy {
    /// The policy in force on `date`, or `None` if EST did not exist yet.
    pub fn for_date(date: Date) -> (r: Option<EstPolicy>)
        ensures
            r matches Some(p) ==> policy_2026_05(p),
            !date@.before(DateView { year: 2026, month: 5, day: 4 }) <==> r is Some,
    {
        let mut t = EstPolicy::table();
        let ghost all = t@;
        while t.len() > 0
            invariant
                all.len() == 1,
                t@.len() == 0 ==> date@.before(all[0].effective_from@),
                policy_2026_05(all[0]),
                t@.len() <= 1,
                t@.len() == 1 ==> t@[0] == all[0],
            decreases t.len(),
        {
            let p = t.pop().unwrap();
            if !date.before(&p.effective_from) {
                return Some(p);
            }
        }
        None
    }

    /// The most recent policy. Used when a line carries no usable charge date.
    pub fn current() -> (p: EstPolicy)
        ensures
            policy_2026_05(p),
    {
        let mut t = EstPolicy::table();
        t.pop().unwrap()
    }

    /// The first configured rate within [`EstPolicy::ratio_tolerance`] of `value`.
    fn rate_for(&self, value: Dec) -> (r: Option<EstRate>)
        ensures
            (match r {
                Some(x) => Some((x.rate@, x.reason@)),
                None => None,
            }) == (match first_rate_within(self.rates@, value@, self.ratio_tolerance@, 0) {
                Some(k) => Some((self.rates@[k].rate@, self.rates@[k].reason@)),
                None => None,
            }),
    {
        let mut i: usize = 0;
        while i < self.rates.len()
            invariant
                i <= self.rates.len(),
                first_rate_within(self.rates@, value@, self.ratio_tolerance@, 0)
                    == first_rate_within(self.rates@, value@, self.ratio_tolerance@, i as int),
            decreases self.rates.len() - i,
        {
            let r = self.rates[i];
            match checked_sub(r.rate, value) {
                Some(d) => {
                    if d.abs().le(&self.ratio_tolerance) {
                        return Some(r);
                    }
                },
                None => {},
            }
            i = i + 1;
        }
        None
    }
}

/// Which signal fired.
#[derive(Debug, Clone, Copy, PartialEq, Eq, Structural)]
pub enum EstEvidenceKind {
    /// `PriceAdjustmentDescription` said so, and the price ratio agrees.
    DeclaredAndPriced,
    /// `PriceAdjustmentDescription` said so; `UnitPrice` was missing or did not corroborate.
    DeclaredNotCorroborated,
    /// Price ratio only. Suggestive, not proof.
    PriceRatio,
}

/// The confidence attached to a finding from each signal: 1.00, 0.90, 0.75.
pub open spec fn confidence_of(kind: EstEvidenceKind) -> DecView {
    match kind {
        EstEvidenceKind::DeclaredAndPriced => dv(false, 100, 2),
        EstEvidenceKind::DeclaredNotCorroborated => dv(false, 90, 2),
        EstEvidenceKind::PriceRatio => dv(false, 75, 2),
    }
}

impl EstEvidenceKind {
    /// Confidence attached to a finding from this signal.
    pub fn confidence(self) -> (r: Dec)
        ensures
            r@ == confidence_of(self),
    {
        match self {
            EstEvidenceKind::DeclaredAndPriced => Dec::new(100, 2),
            EstEvidenceKind::DeclaredNotCorroborated => Dec::new(90, 2),
            EstEvidenceKind::PriceRatio => Dec::new(75, 2),
        }
    }

    pub fn as_str(self) -> (r: &'static str)
        ensures
            r@ == (match self {
                EstEvidenceKind::DeclaredAndPriced => "declared_and_priced"@,
                EstEvidenceKind::DeclaredNotCorroborated => "declared"@,
                EstEvidenceKind::PriceRatio => "price_ratio"@,
            }),
    {
        match self {
            EstEvidenceKind::DeclaredAndPriced => "declared_and_priced",
            EstEvidenceKind::DeclaredNotCorroborated => "declared",
            EstEvidenceKind::PriceRatio => "price_ratio",
        }
    }
}

/// One reconciliation line carrying an EST penalty.
#[derive(Debug, Clone, PartialEq)]
pub struct EstFinding {
    /// Index of the source row. The evidence link.
    pub record_index: u64,

    pub customer_id: String,
    pub customer_name: String,
    pub subscription_id: String,
    pub product_id: String,
    pub sku_id: String,
    pub sku_name: String,
    pub currency: String,

    pub charge_start_date: Option<Date>,
    pub charge_end_date: Option<Date>,
    pub term_duration: TermDuration,

    /// The uplift fraction, e.g. `0.23`.
    pub rate: Dec,
    /// Why that rate applies.
    pub reason: &'static str,
    /// List price the uplift was applied to.
    pub base_unit_price: Dec,
    /// What was actually charged.
    pub effective_unit_price: Dec,
    /// `effective - base`.
    pub uplift_per_seat: Dec,
    /// Signed seats on the line: negative on a credit, so credits net out.
    pub billable_quantity: Dec,
    /// Penalty for this line's charge period, in the export's currency.
    pub uplift_amount: Dec,
    /// The same penalty normalised to a month. This is the number a partner acts on.
    pub monthly_run_rate: Dec,

    pub evidence_kind: EstEvidenceKind,
    pub confidence: Dec,
    pub remediation_window: RemediationWindow,
    /// `PriceAdjustmentDescription` verbatim.
    pub price_adjustment_description: String,
}

/// When an EST charge can be stopped. EST puts the subscription on a monthly term, which
/// is what makes it fixable today; a term that does not read as monthly is downgraded to
/// `AT_RENEWAL` rather than promising an action that may not be available.
pub open spec fn window_for(d: TermDuration) -> RemediationWindow {
    match d {
        TermDuration::Monthly => RemediationWindow::Now,
        _ => RemediationWindow::AtRenewal,
    }
}

fn remediation_window(row: &ReconRow) -> (r: RemediationWindow)
    ensures
        r == window_for(row.term.duration),
{
    match row.term.duration {
        TermDuration::Monthly => RemediationWindow::Now,
        _ => RemediationWindow::AtRenewal,
    }
}

/// The plain decimal `100`.
pub open spec fn hundred() -> DecView {
    dv(false, 100, 0)
}

/// The plain decimal `1`.
pub open spec fn one() -> DecView {
    dv(false, 1, 0)
}

/// The whole number `d` as a decimal, as `Decimal::from(i64)` builds it.
pub open spec fn whole(d: int) -> DecView {
    dv(d < 0, (if d < 0 { -d } else { d }) as nat, 0)
}

/// `PriceAdjustmentDescription`, lowercased, names Extended Service Terms.
pub open spec fn declared_in(markers: Seq<&'static str>, description: Seq<char>) -> bool {
    exists|k: int| 0 <= k < markers.len() && contains(lower_all(description), #[trigger] markers[k]@)
}

/// How far above list a line was charged: `(effective - list) / list`, when the list price
/// is known and positive (and the arithmetic does not overflow).
pub open spec fn price_excess(effective: DecView, list: Option<DecView>) -> Option<DecView> {
    match list {
        Some(l) => if l.units() > 0 {
            match decimal_difference(effective, l) {
                Some(d) => decimal_quotient(d, l),
                None => None,
            }
        } else {
            None
        },
        None => None,
    }
}

/// The rate the price ratio lands on, as an index into the policy's rates.
pub open spec fn ratio_rate(p: EstPolicy, effective: DecView, list: Option<DecView>) -> Option<int> {
    match price_excess(effective, list) {
        Some(x) => first_rate_within(p.rates@, x, p.ratio_tolerance@, 0),
        None => None,
    }
}

/// The rate the description states (its first percentage, divided by 100), as an index
/// into the policy's rates.
pub open spec fn text_rate(p: EstPolicy, description: Seq<char>) -> Option<int> {
    match percentage_of(lower_all(description)) {
        Some(pct) => match decimal_quotient(pct, hundred()) {
            Some(q) => first_rate_within(p.rates@, q, p.ratio_tolerance@, 0),
            None => None,
        },
        None => None,
    }
}

/// Which rate applies and on what evidence. Declared and priced: the priced rate. Declared
/// only: the rate the text states, else the smallest configured (first) rate, so as to
/// under-claim. Priced only: the priced rate.
pub open spec fn selected_rate(p: EstPolicy, declared: bool, ratio: Option<int>, text: Option<int>) -> Option<(int, EstEvidenceKind)> {
    if declared {
        match ratio {
            Some(r) => Some((r, EstEvidenceKind::DeclaredAndPriced)),
            None => match text {
                Some(r) => Some((r, EstEvidenceKind::DeclaredNotCorroborated)),
                None => if p.rates@.len() > 0 { Some((0, EstEvidenceKind::DeclaredNotCorroborated)) } else { None },
            },
        }
    } else {
        match ratio {
            Some(r) => Some((r, EstEvidenceKind::PriceRatio)),
            None => None,
        }
    }
}

/// The list price the uplift applies to: the file's positive `UnitPrice` unless the
/// evidence is declaration only, else derived as `effective / (1 + rate)`.
pub open spec fn base_price(list: Option<DecView>, kind: EstEvidenceKind, effective: DecView, rate: DecView) -> Option<DecView> {
    if list matches Some(l) && l.units() > 0 && kind != EstEvidenceKind::DeclaredNotCorroborated {
        list
    } else {
        match decimal_sum(one(), rate) {
            Some(d) => decimal_quotient(effective, d),
            None => None,
        }
    }
}

/// A period penalty normalised to a month. A 28 to 31 day period (or an unknown one) is a
/// month already; another positive day count scales as `amount / days * avg_days`.
pub open spec fn monthly_rate(amount: DecView, days: Option<int>, avg_days: DecView) -> Option<DecView> {
    match days {
        None => Some(amount),
        Some(d) => if 28 <= d <= 31 {
            Some(amount)
        } else if d > 0 {
            match decimal_quotient(amount, whole(d)) {
                Some(q) => decimal_product(q, avg_days),
                None => None,
            }
        } else {
            Some(amount)
        },
    }
}

/// The figures of an EST finding, as plain values.
pub struct EstTerms {
    pub rate_index: int,
    pub kind: EstEvidenceKind,
    pub effective: DecView,
    pub base: DecView,
    pub uplift_per_seat: DecView,
    pub quantity: DecView,
    pub amount: DecView,
    pub monthly: DecView,
}

/// What policy `p` concludes about `row`: `None` when the line carries no EST penalty
/// (charged before the policy, no positive effective price, no non-zero billable quantity,
/// neither signal, no positive uplift, or an overflowing step), else the figures.
pub open spec fn est_terms(p: EstPolicy, row: ReconRow) -> Option<EstTerms> {
    if row.charge_start_date matches Some(s) && s@.before(p.effective_from@) {
        None
    } else {
        match (row.effective_unit_price, row.billable_quantity) {
            (Some(e), Some(q0)) => {
                let q = signed_quantity(q0@, kind_sign(row.charge_type@));
                if e@.units() <= 0 || q.magnitude == 0 {
                    None
                } else {
                    let list = opt_view(row.unit_price);
                    let declared = declared_in(p.description_markers@, row.price_adjustment_description@);
                    let ratio = ratio_rate(p, e@, list);
                    let text = text_rate(p, row.price_adjustment_description@);
                    match selected_rate(p, declared, ratio, text) {
                        None => None,
                        Some((ri, kind)) => match base_price(list, kind, e@, p.rates@[ri].rate@) {
                            None => None,
                            Some(b) => match decimal_difference(e@, b) {
                                None => None,
                                Some(u) => if u.units() <= 0 {
                                    None
                                } else {
                                    match decimal_product(u, q) {
                                        None => None,
                                        Some(a) => match monthly_rate(a, charge_days_of(row.charge_start_date, row.charge_end_date), p.avg_days_per_month@) {
                                            None => None,
                                            Some(m) => Some(EstTerms {
                                                rate_index: ri,
                                                kind,
                                                effective: e@,
                                                base: b,
                                                uplift_per_seat: u,
                                                quantity: q,
                                                amount: a,
                                                monthly: m,
                                            }),
                                        },
                                    }
                                },
                            },
                        },
                    }
                }
            },
            _ => None,
        }
    }
}

/// `f` is the finding policy `p` reports for `row`, with figures `t`.
pub open spec fn finding_for(f: EstFinding, p: EstPolicy, row: ReconRow, t: EstTerms) -> bool {
    &&& f.record_index == row.record_index
    &&& f.customer_id@ == row.customer_id@
    &&& f.customer_name@ == row.customer_name@
    &&& f.subscription_id@ == row.subscription_id@
    &&& f.product_id@ == row.product_id@
    &&& f.sku_id@ == row.sku_id@
    &&& f.sku_name@ == row.sku_name@
    &&& f.currency@ == row.currency@
    &&& f.charge_start_date == row.charge_start_date
    &&& f.charge_end_date == row.charge_end_date
    &&& f.term_duration == row.term.duration
    &&& 0 <= t.rate_index < p.rates@.len()
    &&& f.rate@ == p.rates@[t.rate_index].rate@
    &&& f.reason@ == p.rates@[t.rate_index].reason@
    &&& f.base_unit_price@ == t.base
    &&& f.effective_unit_price@ == t.effective
    &&& f.uplift_per_seat@ == t.uplift_per_seat
    &&& f.billable_quantity@ == t.quantity
    &&& f.uplift_amount@ == t.amount
    &&& f.monthly_run_rate@ == t.monthly
    &&& f.evidence_kind == t.kind
    &&& f.confidence@ == confidence_of(t.kind)
    &&& f.remediation_window == window_for(row.term.duration)
    &&& f.price_adjustment_description@ == row.price_adjustment_description@
}

impl EstPolicy {
    /// Whether the lowercased description names Extended Service Terms.
    fn is_declared(&self, description: &Vec<char>) -> (r: bool)
        ensures
            r == exists|k: int| 0 <= k < self.description_markers@.len() && contains(description@, #[trigger] self.description_markers@[k]@),
    {
        let mut k: usize = 0;
        while k < self.description_markers.len()
            invariant
                k <= self.description_markers.len(),
                forall|j: int| 0 <= j < k ==> !contains(description@, #[trigger] self.description_markers@[j]@),
            decreases self.description_markers.len() - k,
        {
            if contains_text(description, self.description_markers[k]) {
                return true;
            }
            k = k + 1;
        }
        false
    }

    /// The rate the price ratio lands on (see [`ratio_rate`]).
    fn price_ratio_rate(&self, effective: Dec, unit_price: Option<Dec>) -> (r: Option<EstRate>)
        ensures
            (match r {
                Some(x) => Some((x.rate@, x.reason@)),
                None => None,
            }) == (match ratio_rate(*self, effective@, opt_view(unit_price)) {
                Some(k) => Some((self.rates@[k].rate@, self.rates@[k].reason@)),
                None => None,
            }),
    {
        let list = match unit_price {
            Some(l) => l,
            None => return None,
        };
        if list.le(&Dec::zero()) {
            return None;
        }
        let diff = match checked_sub(effective, list) {
            Some(d) => d,
            None => return None,
        };
        let excess = match checked_div(diff, list) {
            Some(x) => x,
            None => return None,
        };
        self.rate_for(excess)
    }

    /// The rate the lowercased description states (see [`text_rate`]).
    fn stated_rate(&self, description: &Vec<char>) -> (r: Option<EstRate>)
        ensures
            (match r {
                Some(x) => Some((x.rate@, x.reason@)),
                None => None,
            }) == (match percentage_of(description@) {
                Some(pct) => match decimal_quotient(pct, hundred()) {
                    Some(q) => match first_rate_within(self.rates@, q, self.ratio_tolerance@, 0) {
                        Some(k) => Some((self.rates@[k].rate@, self.rates@[k].reason@)),
                        None => None,
                    },
                    None => None,
                },
                None => None,
            }),
    {
        let text = string_from_chars(description);
        let pct = match first_percentage(text.as_str()) {
            Some(p) => p,
            None => return None,
        };
        let q = match checked_div(pct, Dec::new(100, 0)) {
            Some(q) => q,
            None => return None,
        };
        self.rate_for(q)
    }

    /// The list price the uplift applies to (see [`base_price`]).
    fn base_unit_price(&self, unit_price: Option<Dec>, kind: EstEvidenceKind, effective: Dec, rate: Dec) -> (r: Option<Dec>)
        ensures
            opt_view(r) == base_price(opt_view(unit_price), kind, effective@, rate@),
    {
        match unit_price {
            Some(list) => {
                if Dec::zero().lt(&list) && kind != EstEvidenceKind::DeclaredNotCorroborated {
                    return Some(list);
                }
            },
            None => {},
        }
        let divisor = match checked_add(Dec::one(), rate) {
            Some(d) => d,
            None => return None,
        };
        checked_div(effective, divisor)
    }

    /// A period penalty normalised to a month (see [`monthly_rate`]).
    fn monthly_run_rate(&self, row: &ReconRow, uplift_amount: Dec) -> (r: Option<Dec>)
        ensures
            opt_view(r) == monthly_rate(uplift_amount@, charge_days_of(row.charge_start_date, row.charge_end_date), self.avg_days_per_month@),
    {
        match row.charge_days() {
            None => Some(uplift_amount),
            Some(d) => {
                if 28 <= d && d <= 31 {
                    Some(uplift_amount)
                } else if d > 0 {
                    match checked_div(uplift_amount, Dec::from_i64(d)) {
                        Some(q) => checked_mul(q, self.avg_days_per_month),
                        None => None,
                    }
                } else {
                    Some(uplift_amount)
                }
            },
        }
    }

    /// What this policy concludes about `row` (see [`est_terms`]).
    #[verifier::rlimit(40)]
    #[verifier::spinoff_prover]
    fn classify(&self, row: &ReconRow) -> (r: Option<EstFinding>)
        ensures
            (match (r, est_terms(*self, *row)) {
                (None, None) => true,
                (Some(f), Some(t)) => finding_for(f, *self, *row, t),
                _ => false,
            }),
    {
        // A charge that predates the policy cannot be an EST charge. A missing date is not
        // disqualifying (the file may be a partial export), but a readable, too-early one is.
        match row.charge_start_date {
            Some(start) => {
                if start.before(&self.effective_from) {
                    return None;
                }
            },
            None => {},
        }

        // Everything downstream is built on the price actually charged for the seats
        // actually billed; `UnitPrice` and `Quantity` are corroboration only.
        let effective = match row.effective_unit_price {
            Some(e) => e,
            None => return None,
        };
        let quantity = match row.signed_billable_quantity() {
            Some(q) => q,
            None => return None,
        };
        if effective.le(&Dec::zero()) || quantity.is_zero() {
            return None;
        }

        let desc_chars = chars_of(row.price_adjustment_description.as_str());
        let description = lower_all_exec(&desc_chars);
        let declared = self.is_declared(&description);
        let ratio = self.price_ratio_rate(effective, row.unit_price);
        let ghost list = opt_view(row.unit_price);
        let ghost q = signed_quantity(row.billable_quantity.unwrap()@, kind_sign(row.charge_type@));
        let ghost sr = selected_rate(*self, declared_in(self.description_markers@, row.price_adjustment_description@),
            ratio_rate(*self, effective@, list), text_rate(*self, row.price_adjustment_description@));
        proof {
            assert(quantity@ == q);
            assert(declared == declared_in(self.description_markers@, row.price_adjustment_description@));
        }

        let selected: Option<(EstRate, EstEvidenceKind)> = if declared {
            match ratio {
                Some(r) => Some((r, EstEvidenceKind::DeclaredAndPriced)),
                None => match self.stated_rate(&description) {
                    Some(r) => Some((r, EstEvidenceKind::DeclaredNotCorroborated)),
                    None => if self.rates.len() > 0 {
                        Some((self.rates[0], EstEvidenceKind::DeclaredNotCorroborated))
                    } else {
                        None
                    },
                },
            }
        } else {
            match ratio {
                Some(r) => Some((r, EstEvidenceKind::PriceRatio)),
                None => None,
            }
        };
        proof {
            match ratio_rate(*self, effective@, list) {
                Some(k) => lemma_first_rate_within_bounds(self.rates@, price_excess(effective@, list).unwrap(), self.ratio_tolerance@, 0),
                None => {},
            }
            match text_rate(*self, row.price_adjustment_description@) {
                Some(k) => lemma_first_rate_within_bounds(self.rates@,
                    decimal_quotient(percentage_of(lower_all(row.price_adjustment_description@)).unwrap(), hundred()).unwrap(), self.ratio_tolerance@, 0),
                None => {},
            }
            assert(selected is None <==> sr is None);
            if selected is Some {
                let (ri, kd) = sr.unwrap();
                assert(0 <= ri < self.rates@.len());
                assert(selected.unwrap().1 == kd);
                assert(selected.unwrap().0.rate@ == self.rates@[ri].rate@);
                assert(selected.unwrap().0.reason@ == self.rates@[ri].reason@);
            }
        }
        let (rate_info, kind) = match selected {
            Some(x) => x,
            None => return None,
        };

        let base_unit_price = match self.base_unit_price(row.unit_price, kind, effective, rate_info.rate) {
            Some(b) => b,
            None => return None,
        };
        let uplift_per_seat = match checked_sub(effective, base_unit_price) {
            Some(u) => u,
            None => return None,
        };
        proof {
            let (ri, kd) = sr.unwrap();
            assert(kd == kind);
            assert(base_price(list, kind, effective@, self.rates@[ri].rate@) == Some(base_unit_price@));
            assert(decimal_difference(effective@, base_unit_price@) == Some(uplift_per_seat@));
            crate::dec::lemma_zero_units(dv(false, 0, 0));
        }
        let zero = Dec::zero();
        if uplift_per_seat.le(&zero) {
            return None;
        }
        let uplift_amount = match checked_mul(uplift_per_seat, quantity) {
            Some(a) => a,
            None => return None,
        };
        let monthly_run_rate = match self.monthly_run_rate(row, uplift_amount) {
            Some(m) => m,
            None => return None,
        };
        Some(EstFinding {
            record_index: row.record_index,
            customer_id: row.customer_id.clone(),
            customer_name: row.customer_name.clone(),
            subscription_id: row.subscription_id.clone(),
            product_id: row.product_id.clone(),
            sku_id: row.sku_id.clone(),
            sku_name: row.sku_name.clone(),
            currency: row.currency.clone(),
            charge_start_date: row.charge_start_date,
            charge_end_date: row.charge_end_date,
            term_duration: row.term.duration,
            rate: rate_info.rate,
            reason: rate_info.reason,
            base_unit_price,
            effective_unit_price: effective,
            uplift_per_seat,
            billable_quantity: quantity,
            uplift_amount,
            monthly_run_rate,
            evidence_kind: kind,
            confidence: kind.confidence(),
            remediation_window: remediation_window(row),
            price_adjustment_description: row.price_adjustment_description.clone(),
        })
    }
}

// ---------------------------------------------------------------------------------------
// Ordering of subscription keys
// ---------------------------------------------------------------------------------------

/// `a` sorts strictly before `b` as `str`'s `Ord` compares them: lexicographically by
/// character (UTF-8 byte order is code point order), a proper prefix first.
pub open spec fn text_lt(a: Seq<char>, b: Seq<char>) -> bool
    decreases a.len(),
{
    if a.len() == 0 {
        b.len() > 0
    } else if b.len() == 0 {
        false
    } else if a[0] != b[0] {
        a[0] < b[0]
    } else {
        text_lt(a.drop_first(), b.drop_first())
    }
}

pub proof fn lemma_text_lt_irreflexive(a: Seq<char>)
    ensures
        !text_lt(a, a),
    decreases a.len(),
{
    if a.len() > 0 {
        lemma_text_lt_irreflexive(a.drop_first());
    }
}

pub proof fn lemma_text_lt_transitive(a: Seq<char>, b: Seq<char>, c: Seq<char>)
    requires
        text_lt(a, b),
        text_lt(b, c),
    ensures
        text_lt(a, c),
    decreases a.len(),
{
    if a.len() > 0 && b.len() > 0 && c.len() > 0 && a[0] == b[0] && b[0] == c[0] {
        lemma_text_lt_transitive(a.drop_first(), b.drop_first(), c.drop_first());
    }
}

pub proof fn lemma_text_lt_total(a: Seq<char>, b: Seq<char>)
    requires
        a != b,
    ensures
        text_lt(a, b) || text_lt(b, a),
    decreases a.len(),
{
    if a.len() > 0 && b.len() > 0 && a[0] == b[0] {
        if a.drop_first() == b.drop_first() {
            assert(a =~= seq![a[0]] + a.drop_first());
            assert(b =~= seq![b[0]] + b.drop_first());
        }
        lemma_text_lt_total(a.drop_first(), b.drop_first());
    } else if a.len() == 0 && b.len() == 0 {
        assert(a =~= b);
    }
}

/// The key of a subscription: `(customer_id, subscription_id)`.
pub type SubscriptionKey = (Seq<char>, Seq<char>);

/// Key order: by customer, then by subscription.
pub open spec fn key_lt(a: SubscriptionKey, b: SubscriptionKey) -> bool {
    text_lt(a.0, b.0) || (a.0 == b.0 && text_lt(a.1, b.1))
}

pub proof fn lemma_key_lt_irreflexive(a: SubscriptionKey)
    ensures
        !key_lt(a, a),
{
    lemma_text_lt_irreflexive(a.0);
    lemma_text_lt_irreflexive(a.1);
}

pub proof fn lemma_key_lt_transitive(a: SubscriptionKey, b: SubscriptionKey, c: SubscriptionKey)
    requires
        key_lt(a, b),
        key_lt(b, c),
    ensures
        key_lt(a, c),
{
    if text_lt(a.0, b.0) && text_lt(b.0, c.0) {
        lemma_text_lt_transitive(a.0, b.0, c.0);
    } else if a.0 == b.0 && b.0 == c.0 {
        lemma_text_lt_transitive(a.1, b.1, c.1);
    }
}

pub proof fn lemma_key_lt_total(a: SubscriptionKey, b: SubscriptionKey)
    requires
        a != b,
    ensures
        key_lt(a, b) || key_lt(b, a),
{
    if a.0 != b.0 {
        lemma_text_lt_total(a.0, b.0);
    } else {
        if a.1 == b.1 {
            assert(a == b);
        }
        lemma_text_lt_total(a.1, b.1);
    }
}

/// Whether `a < b` as `str` compares them (see [`text_lt`]).
fn text_less(a: &str, b: &str) -> (r: bool)
    ensures
        r == text_lt(a@, b@),
{
    let x = chars_of(a);
    let y = chars_of(b);
    let mut i: usize = 0;
    proof {
        assert(x@.skip(0) =~= x@);
        assert(y@.skip(0) =~= y@);
    }
    while i < x.len() && i < y.len() && x[i] == y[i]
        invariant
            i <= x.len(),
            i <= y.len(),
            text_lt(x@, y@) == text_lt(x@.skip(i as int), y@.skip(i as int)),
        decreases x.len() - i,
    {
        proof {
            assert(x@.skip(i as int).drop_first() =~= x@.skip(i + 1));
            assert(y@.skip(i as int).drop_first() =~= y@.skip(i + 1));
        }
        i = i + 1;
    }
    proof {
        if i < x.len() {
            assert(x@.skip(i as int)[0] == x@[i as int]);
        }
        if i < y.len() {
            assert(y@.skip(i as int)[0] == y@[i as int]);
        }
    }
    if i == x.len() {
        i < y.len()
    } else if i == y.len() {
        false
    } else {
        x[i] < y[i]
    }
}

/// Whether two texts are equal.
pub(crate) fn text_equal(a: &str, b: &str) -> (r: bool)
    ensures
        r == (a@ == b@),
{
    let x = chars_of(a);
    let y = chars_of(b);
    if x.len() != y.len() {
        proof {
            assert(x@.len() != y@.len());
        }
        return false;
    }
    let mut i: usize = 0;
    while i < x.len()
        invariant
            i <= x.len() == y.len(),
            x@ == a@,
            y@ == b@,
            forall|k: int| 0 <= k < i ==> x@[k] == y@[k],
        decreases x.len() - i,
    {
        if x[i] != y[i] {
            proof {
                assert(x@[i as int] != y@[i as int]);
            }
            return false;
        }
        i = i + 1;
    }
    proof {
        assert(x@ =~= y@);
    }
    true
}

// ---------------------------------------------------------------------------------------
// Per-subscription rollup
// ---------------------------------------------------------------------------------------

/// Findings for one subscription, collapsed: one alert per `(customer, subscription)`
/// with a running total, not one per line.
#[derive(Debug, Clone, PartialEq)]
pub struct EstSubscriptionSummary {
    pub customer_id: String,
    pub customer_name: String,
    pub subscription_id: String,
    pub sku_name: String,
    pub currency: String,
    pub rate: Dec,
    pub reason: &'static str,
    /// Sum over the lines in this file.
    pub uplift_amount: Dec,
    /// Sum of the per-line monthly run rates.
    pub monthly_run_rate: Dec,
    pub line_count: usize,
    /// Lowest confidence among the contributing lines.
    pub confidence: Dec,
    pub remediation_window: RemediationWindow,
    /// Source row indices, for the evidence drawer.
    pub record_indices: Vec<u64>,
    /// True when this subscription's total sits under the noise threshold and is therefore
    /// excluded from the headline figures.
    pub below_noise_threshold: bool,
}

/// The key of a finding.
pub open spec fn finding_key(f: EstFinding) -> SubscriptionKey {
    (f.customer_id@, f.subscription_id@)
}

/// The key of a summary.
pub open spec fn summary_key(s: EstSubscriptionSummary) -> SubscriptionKey {
    (s.customer_id@, s.subscription_id@)
}

/// A running rollup of the findings of one subscription, as plain values.
pub struct Rollup {
    /// The first finding of the subscription: names, rate and reason come from it.
    pub first: EstFinding,
    pub uplift: DecView,
    pub monthly: DecView,
    pub count: nat,
    pub confidence: DecView,
    pub window: RemediationWindow,
    pub indices: Seq<u64>,
}

/// The smaller of two decimals as `Decimal::min` picks it: the second only when it is
/// strictly smaller.
pub open spec fn min_view(a: DecView, b: DecView) -> DecView {
    if b.units() < a.units() { b } else { a }
}

/// The rollup of the findings in `fs` keyed `k`, in order: amounts and run rates summed
/// with `Decimal::saturating_add`, confidence the running minimum, and the window
/// collapsing to `AT_RENEWAL` as soon as one line needs it.
pub open spec fn rollup(fs: Seq<EstFinding>, k: SubscriptionKey) -> Option<Rollup>
    decreases fs.len(),
{
    if fs.len() == 0 {
        None
    } else {
        let f = fs.last();
        let prev = rollup(fs.drop_last(), k);
        if finding_key(f) != k {
            prev
        } else {
            match prev {
                None => Some(Rollup {
                    first: f,
                    uplift: f.uplift_amount@,
                    monthly: f.monthly_run_rate@,
                    count: 1,
                    confidence: f.confidence@,
                    window: f.remediation_window,
                    indices: seq![f.record_index],
                }),
                Some(a) => Some(Rollup {
                    first: a.first,
                    uplift: decimal_saturating_sum(a.uplift, f.uplift_amount@),
                    monthly: decimal_saturating_sum(a.monthly, f.monthly_run_rate@),
                    count: a.count + 1,
                    confidence: min_view(a.confidence, f.confidence@),
                    window: if f.remediation_window == RemediationWindow::AtRenewal {
                        RemediationWindow::AtRenewal
                    } else {
                        a.window
                    },
                    indices: a.indices.push(f.record_index),
                }),
            }
        }
    }
}

/// Whether a rollup sits under the noise gate: `|monthly| < threshold`.
pub open spec fn under_gate(a: Rollup, threshold: DecView) -> bool {
    a.monthly.abs_units() < threshold.units()
}

/// `s` is the summary of its subscription's findings among `fs`, gated at `threshold`.
pub open spec fn summarizes(s: EstSubscriptionSummary, fs: Seq<EstFinding>, threshold: DecView) -> bool {
    &&& tallies(s, fs)
    &&& s.below_noise_threshold == under_gate(rollup(fs, summary_key(s)).unwrap(), threshold)
}

/// `s` carries the rollup of its subscription's findings among `fs` (the noise gate aside).
pub open spec fn tallies(s: EstSubscriptionSummary, fs: Seq<EstFinding>) -> bool {
    match rollup(fs, summary_key(s)) {
        None => false,
        Some(a) => {
            &&& s.customer_name@ == a.first.customer_name@
            &&& s.sku_name@ == a.first.sku_name@
            &&& s.currency@ == a.first.currency@
            &&& s.rate@ == a.first.rate@
            &&& s.reason@ == a.first.reason@
            &&& s.uplift_amount@ == a.uplift
            &&& s.monthly_run_rate@ == a.monthly
            &&& s.line_count == a.count
            &&& s.confidence@ == a.confidence
            &&& s.remediation_window == a.window
            &&& s.record_indices@ == a.indices
            // The sums are exact whenever they can be.
            &&& key_sum_fits(fs, summary_key(s), false) ==> s.uplift_amount@.units() == key_units(fs, summary_key(s), false)
                && s.uplift_amount@.scale <= key_scale(fs, summary_key(s), false)
            &&& key_sum_fits(fs, summary_key(s), true) ==> s.monthly_run_rate@.units() == key_units(fs, summary_key(s), true)
                && s.monthly_run_rate@.scale <= key_scale(fs, summary_key(s), true)
        },
    }
}

/// The amount (`monthly` false) or run rate of a finding.
pub open spec fn line_figure(f: EstFinding, monthly: bool) -> DecView {
    if monthly { f.monthly_run_rate@ } else { f.uplift_amount@ }
}

/// The exact sum, in units of `10^-28`, of the figures of the findings keyed `k`.
pub open spec fn key_units(fs: Seq<EstFinding>, k: SubscriptionKey, monthly: bool) -> int
    decreases fs.len(),
{
    if fs.len() == 0 {
        0
    } else {
        key_units(fs.drop_last(), k, monthly)
            + if finding_key(fs.last()) == k { line_figure(fs.last(), monthly).units() } else { 0 }
    }
}

/// The sum of the magnitudes of those figures.
pub open spec fn key_magnitude(fs: Seq<EstFinding>, k: SubscriptionKey, monthly: bool) -> int
    decreases fs.len(),
{
    if fs.len() == 0 {
        0
    } else {
        key_magnitude(fs.drop_last(), k, monthly)
            + if finding_key(fs.last()) == k { line_figure(fs.last(), monthly).abs_units() as int } else { 0 }
    }
}

/// The largest scale among those figures (0 when there are none).
pub open spec fn key_scale(fs: Seq<EstFinding>, k: SubscriptionKey, monthly: bool) -> nat
    decreases fs.len(),
{
    if fs.len() == 0 {
        0
    } else {
        let prev = key_scale(fs.drop_last(), k, monthly);
        let x = line_figure(fs.last(), monthly);
        if finding_key(fs.last()) == k && x.scale > prev { x.scale } else { prev }
    }
}

/// The figures of the findings keyed `k` add up without leaving 96 bits at the largest
/// scale among them: no partial sum can overflow or need rounding.
pub open spec fn key_sum_fits(fs: Seq<EstFinding>, k: SubscriptionKey, monthly: bool) -> bool {
    &&& key_scale(fs, k, monthly) <= 28
    &&& key_magnitude(fs, k, monthly) < crate::dec::magnitude_bound() * pow10((28 - key_scale(fs, k, monthly)) as nat)
}

/// With no finding keyed `k`, every sum over `k` is empty.
proof fn lemma_key_absent(fs: Seq<EstFinding>, k: SubscriptionKey, monthly: bool)
    requires
        rollup(fs, k) is None,
    ensures
        key_units(fs, k, monthly) == 0,
        key_magnitude(fs, k, monthly) == 0,
        key_scale(fs, k, monthly) == 0,
    decreases fs.len(),
{
    if fs.len() > 0 {
        lemma_key_absent(fs.drop_last(), k, monthly);
    }
}

proof fn lemma_key_bounds(fs: Seq<EstFinding>, k: SubscriptionKey, monthly: bool)
    ensures
        -key_magnitude(fs, k, monthly) <= key_units(fs, k, monthly) <= key_magnitude(fs, k, monthly),
    decreases fs.len(),
{
    if fs.len() > 0 {
        lemma_key_bounds(fs.drop_last(), k, monthly);
    }
}

/// Adding the next line of subscription `k` to a running sum that holds the exact sum of
/// the lines before it: the new sum fits at the larger scale and is the exact sum.
proof fn lemma_key_step(prev: Seq<EstFinding>, f: EstFinding, k: SubscriptionKey, monthly: bool, acc: DecView)
    requires
        finding_key(f) == k,
        key_sum_fits(prev.push(f), k, monthly),
        acc.units() == key_units(prev, k, monthly),
        acc.scale <= key_scale(prev, k, monthly),
    ensures
        crate::dec::fits_at(acc.units() + line_figure(f, monthly).units(), crate::dec::max_scale(acc, line_figure(f, monthly))),
        acc.units() + line_figure(f, monthly).units() == key_units(prev.push(f), k, monthly),
        crate::dec::max_scale(acc, line_figure(f, monthly)) <= key_scale(prev.push(f), k, monthly),
{
    let next = prev.push(f);
    let x = line_figure(f, monthly);
    assert(next.drop_last() =~= prev);
    assert(next.last() == f);
    lemma_key_bounds(next, k, monthly);
    let s = crate::dec::max_scale(acc, x);
    let big = key_scale(next, k, monthly);
    assert(s <= big <= 28);
    assert((28 - big) as nat <= (28 - s) as nat);
    crate::dec::lemma_pow10_monotonic((28 - big) as nat, (28 - s) as nat);
    let pb = pow10((28 - big) as nat);
    let ps = pow10((28 - s) as nat);
    assert(crate::dec::magnitude_bound() * pb <= crate::dec::magnitude_bound() * ps) by (nonlinear_arith)
        requires
            pb <= ps;
}

/// Sums that fit with one more line fit without it.
proof fn lemma_key_prefix_fits(prev: Seq<EstFinding>, f: EstFinding, k: SubscriptionKey, monthly: bool)
    requires
        key_sum_fits(prev.push(f), k, monthly),
    ensures
        key_sum_fits(prev, k, monthly),
{
    let next = prev.push(f);
    assert(next.drop_last() =~= prev);
    assert(next.last() == f);
    let big = key_scale(next, k, monthly);
    let small = key_scale(prev, k, monthly);
    assert(small <= big <= 28);
    assert((28 - big) as nat <= (28 - small) as nat);
    crate::dec::lemma_pow10_monotonic((28 - big) as nat, (28 - small) as nat);
    let pb = pow10((28 - big) as nat);
    let pm = pow10((28 - small) as nat);
    assert(crate::dec::magnitude_bound() * pb <= crate::dec::magnitude_bound() * pm) by (nonlinear_arith)
        requires
            pb <= pm;
}

/// `ks` with `k` inserted after every key that sorts before it.
pub open spec fn insert_key(ks: Seq<SubscriptionKey>, k: SubscriptionKey) -> Seq<SubscriptionKey>
    decreases ks.len(),
{
    if ks.len() == 0 {
        seq![k]
    } else if key_lt(ks[0], k) {
        seq![ks[0]] + insert_key(ks.drop_first(), k)
    } else {
        seq![k] + ks
    }
}

/// The distinct subscription keys of `fs`, in key order.
pub open spec fn sorted_keys(fs: Seq<EstFinding>) -> Seq<SubscriptionKey>
    decreases fs.len(),
{
    if fs.len() == 0 {
        Seq::empty()
    } else {
        let ks = sorted_keys(fs.drop_last());
        let k = finding_key(fs.last());
        if ks.contains(k) {
            ks
        } else {
            insert_key(ks, k)
        }
    }
}

/// Sum, in key order starting from zero, of the run rates (`monthly`) or amounts of the
/// subscriptions on one side of the noise gate (`below`).
pub open spec fn gated_total(ks: Seq<SubscriptionKey>, fs: Seq<EstFinding>, threshold: DecView, below: bool, monthly: bool) -> DecView
    decreases ks.len(),
{
    if ks.len() == 0 {
        dv(false, 0, 0)
    } else {
        let prev = gated_total(ks.drop_last(), fs, threshold, below, monthly);
        let a = rollup(fs, ks.last()).unwrap();
        if under_gate(a, threshold) == below {
            decimal_saturating_sum(prev, if monthly { a.monthly } else { a.uplift })
        } else {
            prev
        }
    }
}

/// How many subscriptions of `ks` sit under the noise gate.
pub open spec fn gated_count(ks: Seq<SubscriptionKey>, fs: Seq<EstFinding>, threshold: DecView) -> nat
    decreases ks.len(),
{
    if ks.len() == 0 {
        0
    } else {
        gated_count(ks.drop_last(), fs, threshold) + if under_gate(rollup(fs, ks.last()).unwrap(), threshold) { 1nat } else { 0nat }
    }
}

/// `a` is listed before `b` in the report: larger monthly run rate first, ties by key.
pub open spec fn ranks_before(a: EstSubscriptionSummary, b: EstSubscriptionSummary) -> bool {
    ||| a.monthly_run_rate@.units() > b.monthly_run_rate@.units()
    ||| (a.monthly_run_rate@.units() == b.monthly_run_rate@.units() && key_lt(summary_key(a), summary_key(b)))
}

/// Everything the EST detector concluded about one file.
#[derive(Debug, Clone)]
pub struct EstReport {
    /// Every line that matched, including ones later suppressed as noise.
    pub findings: Vec<EstFinding>,
    /// Per-subscription rollups, largest monthly run rate first.
    pub subscriptions: Vec<EstSubscriptionSummary>,
    /// Headline monthly figure: above-threshold subscriptions only.
    pub total_monthly_run_rate: Dec,
    /// Penalty billed in this file, above-threshold subscriptions only.
    pub total_uplift_amount: Dec,
    /// Monthly total hidden by the noise gate. Shown as a footnote, never silently dropped.
    pub suppressed_monthly_run_rate: Dec,
    pub suppressed_subscription_count: usize,
    /// The threshold that was applied, so the UI can name it.
    pub noise_threshold_monthly: Dec,
}

/// Accumulates EST findings across a stream. Feed it every row; ask for the report at the
/// end.
#[derive(Debug)]
pub struct EstDetector {
    policy: EstPolicy,
    findings: Vec<EstFinding>,
}

/// The state of a detector: its policy and the lines matched so far.
pub struct EstDetectorView {
    pub policy: EstPolicy,
    pub findings: Seq<EstFinding>,
}

impl View for EstDetector {
    type V = EstDetectorView;

    closed spec fn view(&self) -> EstDetectorView {
        EstDetectorView { policy: self.policy, findings: self.findings@ }
    }
}

/// The findings after `row` is observed under policy `p`.
pub open spec fn observed(p: EstPolicy, fs: Seq<EstFinding>, row: ReconRow, r: Seq<EstFinding>) -> bool {
    match est_terms(p, row) {
        None => r == fs,
        Some(t) => r.len() == fs.len() + 1 && r.drop_last() == fs && finding_for(r.last(), p, row, t),
    }
}

impl EstDetector {
    /// Detector using the policy currently in force.
    pub fn new() -> (d: EstDetector)
        ensures
            policy_2026_05(d@.policy),
            d@.findings.len() == 0,
    {
        EstDetector { policy: EstPolicy::current(), findings: Vec::new() }
    }

    /// Detector pinned to a specific policy version, for reprocessing historical files.
    pub fn with_policy(policy: EstPolicy) -> (d: EstDetector)
        ensures
            d@.policy == policy,
            d@.findings.len() == 0,
    {
        EstDetector { policy, findings: Vec::new() }
    }

    pub fn policy(&self) -> (p: &EstPolicy)
        ensures
            *p == self@.policy,
    {
        &self.policy
    }

    /// Lines matched so far, mid-stream. A *line* count, not the subscription count of the
    /// final report: the rollup and the noise gate only happen in
    /// [`finish`](Self::finish).
    pub fn finding_count(&self) -> (n: usize)
        ensures
            n == self@.findings.len(),
    {
        self.findings.len()
    }

    /// Examine one row: a matching line is appended to the findings, anything else leaves
    /// the detector as it was.
    pub fn observe(&mut self, row: &ReconRow)
        ensures
            final(self)@.policy == old(self)@.policy,
            observed(old(self)@.policy, old(self)@.findings, *row, final(self)@.findings),
    {
        match self.policy.classify(row) {
            Some(f) => {
                self.findings.push(f);
                proof {
                    assert(self.findings@.drop_last() =~= old(self).findings@);
                }
            },
            None => {},
        }
    }
}

impl Default for EstDetector {
    fn default() -> (d: EstDetector)
        ensures
            policy_2026_05(d@.policy),
            d@.findings.len() == 0,
    {
        EstDetector::new()
    }
}

/// Keys strictly increasing in key order.
pub open spec fn strictly_sorted(ks: Seq<SubscriptionKey>) -> bool {
    forall|i: int, j: int| 0 <= i < j < ks.len() ==> key_lt(#[trigger] ks[i], #[trigger] ks[j])
}

/// `j` is where `k` belongs in `ks`: every key before it sorts before `k`, the one at it
/// (if any) does not.
pub open spec fn slot_of(ks: Seq<SubscriptionKey>, k: SubscriptionKey, j: int) -> bool {
    &&& 0 <= j <= ks.len()
    &&& forall|m: int| 0 <= m < j ==> key_lt(#[trigger] ks[m], k)
    &&& j < ks.len() ==> !key_lt(ks[j], k)
}

proof fn lemma_slot(ks: Seq<SubscriptionKey>, k: SubscriptionKey, j: int)
    requires
        strictly_sorted(ks),
        slot_of(ks, k, j),
    ensures
        ks.contains(k) <==> (j < ks.len() && ks[j] == k),
        !ks.contains(k) ==> insert_key(ks, k) == ks.take(j).push(k) + ks.skip(j),
        !ks.contains(k) ==> strictly_sorted(ks.take(j).push(k) + ks.skip(j)),
    decreases ks.len(),
{
    if ks.contains(k) {
        let m = choose|m: int| 0 <= m < ks.len() && ks[m] == k;
        if m < j {
            lemma_key_lt_irreflexive(k);
        } else if m > j {
            assert(key_lt(ks[j], ks[m]));
            if ks[j] != k {
                lemma_key_lt_total(ks[j], k);
            }
        }
    }
    if !ks.contains(k) {
        let r = ks.take(j).push(k) + ks.skip(j);
        if j < ks.len() {
            assert(ks[j] != k);
            lemma_key_lt_total(ks[j], k);
            assert(key_lt(k, ks[j]));
        }
        assert forall|a: int, b: int| 0 <= a < b < r.len() implies key_lt(#[trigger] r[a], #[trigger] r[b]) by {
            if b < j {
                assert(r[a] == ks[a] && r[b] == ks[b]);
            } else if b == j {
                assert(r[a] == ks[a] && r[b] == k);
            } else if a < j {
                assert(r[a] == ks[a] && r[b] == ks[b - 1]);
                assert(key_lt(ks[a], k));
                assert(key_lt(k, ks[j]));
                lemma_key_lt_transitive(ks[a], k, ks[j]);
                if b - 1 > j {
                    lemma_key_lt_transitive(ks[a], ks[j], ks[b - 1]);
                }
            } else if a == j {
                assert(r[a] == k && r[b] == ks[b - 1]);
                if b - 1 > j {
                    lemma_key_lt_transitive(k, ks[j], ks[b - 1]);
                }
            } else {
                assert(r[a] == ks[a - 1] && r[b] == ks[b - 1]);
            }
        }
        if ks.len() == 0 {
            assert(r =~= seq![k]);
        } else if j == 0 {
            assert(r =~= seq![k] + ks);
            assert(!key_lt(ks[0], k));
        } else {
            let t = ks.drop_first();
            assert(key_lt(ks[0], k));
            assert(strictly_sorted(t)) by {
                assert forall|a: int, b: int| 0 <= a < b < t.len() implies key_lt(#[trigger] t[a], #[trigger] t[b]) by {
                    assert(t[a] == ks[a + 1] && t[b] == ks[b + 1]);
                }
            }
            assert(slot_of(t, k, j - 1)) by {
                assert forall|m: int| 0 <= m < j - 1 implies key_lt(#[trigger] t[m], k) by {
                    assert(t[m] == ks[m + 1]);
                }
                if j - 1 < t.len() {
                    assert(t[j - 1] == ks[j]);
                }
            }
            assert(!t.contains(k)) by {
                if t.contains(k) {
                    let m = choose|m: int| 0 <= m < t.len() && t[m] == k;
                    assert(ks[m + 1] == k);
                }
            }
            lemma_slot(t, k, j - 1);
            assert(r =~= seq![ks[0]] + (t.take(j - 1).push(k) + t.skip(j - 1)));
        }
    }
}

/// The keys of `fs` in key order are strictly sorted, and are exactly the keys of its
/// findings.
proof fn lemma_sorted_keys(fs: Seq<EstFinding>)
    ensures
        strictly_sorted(sorted_keys(fs)),
        forall|k: SubscriptionKey| sorted_keys(fs).contains(k) <==> (exists|i: int| 0 <= i < fs.len() && finding_key(fs[i]) == k),
        forall|k: SubscriptionKey| sorted_keys(fs).contains(k) <==> (rollup(fs, k) is Some),
    decreases fs.len(),
{
    if fs.len() > 0 {
        let prev = fs.drop_last();
        lemma_sorted_keys(prev);
        let ks = sorted_keys(prev);
        let k = finding_key(fs.last());
        if !ks.contains(k) {
            let j = lower_slot(ks, k);
            lemma_lower_slot(ks, k);
            lemma_slot(ks, k, j);
            let r = ks.take(j).push(k) + ks.skip(j);
            assert forall|x: SubscriptionKey| r.contains(x) <==> (ks.contains(x) || x == k) by {
                if r.contains(x) {
                    let m = choose|m: int| 0 <= m < r.len() && r[m] == x;
                    if m < j {
                        assert(ks[m] == x);
                    } else if m > j {
                        assert(ks[m - 1] == x);
                    }
                }
                if ks.contains(x) {
                    let m = choose|m: int| 0 <= m < ks.len() && ks[m] == x;
                    if m < j {
                        assert(r[m] == x);
                    } else {
                        assert(r[m + 1] == x);
                    }
                }
                if x == k {
                    assert(r[j] == x);
                }
            }
        }
        assert forall|x: SubscriptionKey| sorted_keys(fs).contains(x) <==> (exists|i: int| 0 <= i < fs.len() && finding_key(fs[i]) == x) by {
            if exists|i: int| 0 <= i < fs.len() && finding_key(fs[i]) == x {
                let i = choose|i: int| 0 <= i < fs.len() && finding_key(fs[i]) == x;
                if i < fs.len() - 1 {
                    assert(prev[i] == fs[i]);
                }
            }
            if exists|i: int| 0 <= i < prev.len() && finding_key(prev[i]) == x {
                let i = choose|i: int| 0 <= i < prev.len() && finding_key(prev[i]) == x;
                assert(fs[i] == prev[i]);
            }
        }
    }
}

/// The slot of `k` in `ks`, found by a scan from the front.
spec fn lower_slot(ks: Seq<SubscriptionKey>, k: SubscriptionKey) -> int
    decreases ks.len(),
{
    if ks.len() == 0 || !key_lt(ks[0], k) {
        0
    } else {
        1 + lower_slot(ks.drop_first(), k)
    }
}

proof fn lemma_lower_slot(ks: Seq<SubscriptionKey>, k: SubscriptionKey)
    ensures
        slot_of(ks, k, lower_slot(ks, k)),
    decreases ks.len(),
{
    if ks.len() > 0 && key_lt(ks[0], k) {
        let t = ks.drop_first();
        lemma_lower_slot(t, k);
        let j = lower_slot(ks, k);
        assert forall|m: int| 0 <= m < j implies key_lt(#[trigger] ks[m], k) by {
            if m > 0 {
                assert(ks[m] == t[m - 1]);
            }
        }
        if j < ks.len() {
            assert(ks[j] == t[j - 1]);
        }
    }
}

/// The keys of a list of summaries.
pub open spec fn keys_of(gs: Seq<EstSubscriptionSummary>) -> Seq<SubscriptionKey> {
    gs.map_values(|g: EstSubscriptionSummary| summary_key(g))
}

/// Whether `(a_c, a_s)` sorts before `(b_c, b_s)` in key order.
fn key_less(a_c: &str, a_s: &str, b_c: &str, b_s: &str) -> (r: bool)
    ensures
        r == key_lt((a_c@, a_s@), (b_c@, b_s@)),
{
    text_less(a_c, b_c) || (text_equal(a_c, b_c) && text_less(a_s, b_s))
}

/// Where the key `(c, sub)` belongs among summaries sorted by key (binary search).
fn find_slot(groups: &Vec<EstSubscriptionSummary>, c: &str, sub: &str) -> (j: usize)
    requires
        strictly_sorted(keys_of(groups@)),
    ensures
        slot_of(keys_of(groups@), (c@, sub@), j as int),
{
    let ghost ks = keys_of(groups@);
    let ghost k = (c@, sub@);
    let mut lo: usize = 0;
    let mut hi: usize = groups.len();
    while lo < hi
        invariant
            lo <= hi <= groups.len(),
            ks == keys_of(groups@),
            k == (c@, sub@),
            strictly_sorted(ks),
            forall|m: int| 0 <= m < lo ==> key_lt(#[trigger] ks[m], k),
            forall|m: int| hi <= m < ks.len() ==> !key_lt(#[trigger] ks[m], k),
        decreases hi - lo,
    {
        let mid = lo + (hi - lo) / 2;
        let g = &groups[mid];
        if key_less(g.customer_id.as_str(), g.subscription_id.as_str(), c, sub) {
            proof {
                assert forall|m: int| 0 <= m < mid + 1 implies key_lt(#[trigger] ks[m], k) by {
                    if m < mid {
                        lemma_key_lt_transitive(ks[m], ks[mid as int], k);
                    }
                }
            }
            lo = mid + 1;
        } else {
            proof {
                assert forall|m: int| mid <= m < ks.len() implies !key_lt(#[trigger] ks[m], k) by {
                    if m > mid && key_lt(ks[m], k) {
                        lemma_key_lt_transitive(ks[mid as int], ks[m], k);
                    }
                }
            }
            hi = mid;
        }
    }
    lo
}

/// The first summary of a subscription, from its first finding.
fn first_summary(f: &EstFinding) -> (s: EstSubscriptionSummary)
    ensures
        summary_key(s) == finding_key(*f),
        s.customer_name@ == f.customer_name@,
        s.sku_name@ == f.sku_name@,
        s.currency@ == f.currency@,
        s.rate@ == f.rate@,
        s.reason@ == f.reason@,
        s.uplift_amount@ == f.uplift_amount@,
        s.monthly_run_rate@ == f.monthly_run_rate@,
        s.line_count == 1,
        s.confidence@ == f.confidence@,
        s.remediation_window == f.remediation_window,
        s.record_indices@ == seq![f.record_index],
        !s.below_noise_threshold,
{
    let mut record_indices: Vec<u64> = Vec::new();
    record_indices.push(f.record_index);
    proof {
        assert(record_indices@ =~= seq![f.record_index]);
    }
    EstSubscriptionSummary {
        customer_id: f.customer_id.clone(),
        customer_name: f.customer_name.clone(),
        subscription_id: f.subscription_id.clone(),
        sku_name: f.sku_name.clone(),
        currency: f.currency.clone(),
        rate: f.rate,
        reason: f.reason,
        uplift_amount: f.uplift_amount,
        monthly_run_rate: f.monthly_run_rate,
        line_count: 1,
        confidence: f.confidence,
        remediation_window: f.remediation_window,
        record_indices,
        below_noise_threshold: false,
    }
}

/// Add finding `f` to the summary of its subscription.
fn add_line(s: &mut EstSubscriptionSummary, f: &EstFinding)
    requires
        old(s).line_count < usize::MAX,
    ensures
        summary_key(*final(s)) == summary_key(*old(s)),
        final(s).customer_name@ == old(s).customer_name@,
        final(s).sku_name@ == old(s).sku_name@,
        final(s).currency@ == old(s).currency@,
        final(s).rate@ == old(s).rate@,
        final(s).reason@ == old(s).reason@,
        final(s).uplift_amount@ == decimal_saturating_sum(old(s).uplift_amount@, f.uplift_amount@),
        final(s).monthly_run_rate@ == decimal_saturating_sum(old(s).monthly_run_rate@, f.monthly_run_rate@),
        crate::dec::fits_at(old(s).uplift_amount@.units() + f.uplift_amount@.units(), crate::dec::max_scale(old(s).uplift_amount@, f.uplift_amount@))
            ==> final(s).uplift_amount@.units() == old(s).uplift_amount@.units() + f.uplift_amount@.units()
                && final(s).uplift_amount@.scale <= crate::dec::max_scale(old(s).uplift_amount@, f.uplift_amount@),
        crate::dec::fits_at(old(s).monthly_run_rate@.units() + f.monthly_run_rate@.units(), crate::dec::max_scale(old(s).monthly_run_rate@, f.monthly_run_rate@))
            ==> final(s).monthly_run_rate@.units() == old(s).monthly_run_rate@.units() + f.monthly_run_rate@.units()
                && final(s).monthly_run_rate@.scale <= crate::dec::max_scale(old(s).monthly_run_rate@, f.monthly_run_rate@),
        final(s).line_count == old(s).line_count + 1,
        final(s).confidence@ == min_view(old(s).confidence@, f.confidence@),
        final(s).remediation_window == (if f.remediation_window == RemediationWindow::AtRenewal {
            RemediationWindow::AtRenewal
        } else {
            old(s).remediation_window
        }),
        final(s).record_indices@ == old(s).record_indices@.push(f.record_index),
        final(s).below_noise_threshold == old(s).below_noise_threshold,
{
    s.uplift_amount = saturating_add(s.uplift_amount, f.uplift_amount);
    s.monthly_run_rate = saturating_add(s.monthly_run_rate, f.monthly_run_rate);
    s.line_count = s.line_count + 1;
    s.confidence = s.confidence.min(f.confidence);
    s.record_indices.push(f.record_index);
    // Mixed windows collapse to the more conservative one.
    if f.remediation_window == RemediationWindow::AtRenewal {
        s.remediation_window = RemediationWindow::AtRenewal;
    }
}

/// Roll the findings up per subscription, in key order.
#[verifier::rlimit(40)]
fn group_findings(findings: &Vec<EstFinding>) -> (groups: Vec<EstSubscriptionSummary>)
    ensures
        keys_of(groups@) == sorted_keys(findings@),
        forall|j: int| 0 <= j < groups@.len() ==> #[trigger] tallies(groups@[j], findings@),
        forall|j: int| 0 <= j < groups@.len() ==> !(#[trigger] groups@[j]).below_noise_threshold,
{
    let ghost fs = findings@;
    let mut groups: Vec<EstSubscriptionSummary> = Vec::new();
    let mut i: usize = 0;
    proof {
        assert(fs.take(0) =~= Seq::<EstFinding>::empty());
        assert(keys_of(groups@) =~= Seq::<SubscriptionKey>::empty());
    }
    while i < findings.len()
        invariant
            i <= findings.len(),
            fs == findings@,
            keys_of(groups@) == sorted_keys(fs.take(i as int)),
            forall|j: int| 0 <= j < groups@.len() ==> #[trigger] tallies(groups@[j], fs.take(i as int)),
            forall|j: int| 0 <= j < groups@.len() ==> (#[trigger] groups@[j]).line_count <= i,
            forall|j: int| 0 <= j < groups@.len() ==> !(#[trigger] groups@[j]).below_noise_threshold,
        decreases findings.len() - i,
    {
        let ghost prev = fs.take(i as int);
        let ghost next = fs.take(i + 1);
        let ghost old_groups = groups@;
        let f = &findings[i];
        let ghost k = finding_key(*f);
        proof {
            assert(next.drop_last() =~= prev);
            assert(next.last() == *f);
            lemma_sorted_keys(prev);
            assert forall|k2: SubscriptionKey| k2 != k implies rollup(next, k2) == rollup(prev, k2) by {}
        }
        let j = find_slot(&groups, f.customer_id.as_str(), f.subscription_id.as_str());
        let ghost ks = keys_of(groups@);
        proof {
            lemma_slot(ks, k, j as int);
        }
        let found = j < groups.len() && text_equal(groups[j].customer_id.as_str(), f.customer_id.as_str())
            && text_equal(groups[j].subscription_id.as_str(), f.subscription_id.as_str());
        if found {
            proof {
                assert(ks[j as int] == k);
                assert(tallies(old_groups[j as int], prev));
            }
            add_line(&mut groups[j], f);
            proof {
                assert(sorted_keys(next) == sorted_keys(prev));
                assert(keys_of(groups@) =~= ks);
                assert forall|m: int| 0 <= m < groups@.len() implies #[trigger] tallies(groups@[m], next) by {
                    if m == j {
                        let a = rollup(prev, k).unwrap();
                        assert(summary_key(groups@[m]) == k);
                        assert(next =~= prev.push(*f));
                        if key_sum_fits(next, k, false) {
                            lemma_key_prefix_fits(prev, *f, k, false);
                            lemma_key_step(prev, *f, k, false, old_groups[j as int].uplift_amount@);
                        }
                        if key_sum_fits(next, k, true) {
                            lemma_key_prefix_fits(prev, *f, k, true);
                            lemma_key_step(prev, *f, k, true, old_groups[j as int].monthly_run_rate@);
                        }
                        assert(rollup(next, k) == Some(Rollup {
                            first: a.first,
                            uplift: decimal_saturating_sum(a.uplift, f.uplift_amount@),
                            monthly: decimal_saturating_sum(a.monthly, f.monthly_run_rate@),
                            count: a.count + 1,
                            confidence: min_view(a.confidence, f.confidence@),
                            window: if f.remediation_window == RemediationWindow::AtRenewal {
                                RemediationWindow::AtRenewal
                            } else {
                                a.window
                            },
                            indices: a.indices.push(f.record_index),
                        }));
                    } else {
                        assert(groups@[m] == old_groups[m]);
                        assert(summary_key(groups@[m]) == ks[m]);
                        assert(ks[m] != k) by {
                            if m < j {
                                lemma_key_lt_irreflexive(k);
                                assert(key_lt(ks[m], ks[j as int]));
                            } else {
                                assert(key_lt(ks[j as int], ks[m]));
                                lemma_key_lt_irreflexive(k);
                            }
                        }
                        assert(rollup(next, ks[m]) == rollup(prev, ks[m]));
                        assert(tallies(old_groups[m], prev));
                        assert(tallies(groups@[m], next));
                    }
                }
            }
        } else {
            proof {
                assert(!ks.contains(k));
                assert(rollup(prev, k) is None);
                lemma_key_absent(prev, k, false);
                lemma_key_absent(prev, k, true);
            }
            let g = first_summary(f);
            let ghost gv = g;
            groups.insert(j, g);
            proof {
                assert(sorted_keys(next) == insert_key(ks, k));
                assert(keys_of(groups@) =~= ks.take(j as int).push(k) + ks.skip(j as int));
                assert forall|m: int| 0 <= m < groups@.len() implies #[trigger] tallies(groups@[m], next) by {
                    if m < j {
                        assert(groups@[m] == old_groups[m]);
                        assert(summary_key(groups@[m]) == ks[m]);
                        assert(ks[m] != k);
                        assert(rollup(next, ks[m]) == rollup(prev, ks[m]));
                        assert(tallies(old_groups[m], prev));
                    } else if m > j {
                        assert(groups@[m] == old_groups[m - 1]);
                        assert(summary_key(groups@[m]) == ks[m - 1]);
                        assert(ks[m - 1] != k);
                        assert(rollup(next, ks[m - 1]) == rollup(prev, ks[m - 1]));
                        assert(tallies(old_groups[m - 1], prev));
                    } else {
                        assert(groups@[m] == gv);
                        assert(summary_key(gv) == k);
                        assert(rollup(next, k) == Some(Rollup {
                            first: *f,
                            uplift: f.uplift_amount@,
                            monthly: f.monthly_run_rate@,
                            count: 1,
                            confidence: f.confidence@,
                            window: f.remediation_window,
                            indices: seq![f.record_index],
                        }));
                    }
                }
            }
        }
        i = i + 1;
    }
    proof {
        assert(fs.take(fs.len() as int) =~= fs);
    }
    groups
}

/// Whether a run rate sits under the noise gate: `|monthly| < threshold`.
fn below_gate(monthly: &Dec, threshold: &Dec) -> (r: bool)
    ensures
        r == (monthly@.abs_units() < threshold@.units()),
{
    monthly.abs().lt(threshold)
}

/// The figure of a rollup being totalled: its run rate (`monthly`) or its amount.
pub open spec fn figure(a: Rollup, monthly: bool) -> DecView {
    if monthly { a.monthly } else { a.uplift }
}

/// The exact sum, in units of `10^-28`, of the figures of the subscriptions of `ks` on one
/// side of the noise gate.
pub open spec fn gated_units(ks: Seq<SubscriptionKey>, fs: Seq<EstFinding>, threshold: DecView, below: bool, monthly: bool) -> int
    decreases ks.len(),
{
    if ks.len() == 0 {
        0
    } else {
        let a = rollup(fs, ks.last()).unwrap();
        gated_units(ks.drop_last(), fs, threshold, below, monthly)
            + if under_gate(a, threshold) == below { figure(a, monthly).units() } else { 0 }
    }
}

/// The sum of the magnitudes of those figures.
pub open spec fn gated_magnitude(ks: Seq<SubscriptionKey>, fs: Seq<EstFinding>, threshold: DecView, below: bool, monthly: bool) -> int
    decreases ks.len(),
{
    if ks.len() == 0 {
        0
    } else {
        let a = rollup(fs, ks.last()).unwrap();
        gated_magnitude(ks.drop_last(), fs, threshold, below, monthly)
            + if under_gate(a, threshold) == below { figure(a, monthly).abs_units() as int } else { 0 }
    }
}

/// The largest scale among those figures (0 when there are none).
pub open spec fn gated_scale(ks: Seq<SubscriptionKey>, fs: Seq<EstFinding>, threshold: DecView, below: bool, monthly: bool) -> nat
    decreases ks.len(),
{
    if ks.len() == 0 {
        0
    } else {
        let a = rollup(fs, ks.last()).unwrap();
        let prev = gated_scale(ks.drop_last(), fs, threshold, below, monthly);
        if under_gate(a, threshold) == below && figure(a, monthly).scale > prev { figure(a, monthly).scale } else { prev }
    }
}

/// The figures add up without leaving 96 bits at the largest scale among them: no partial
/// sum can overflow or need rounding.
pub open spec fn gated_sum_fits(ks: Seq<SubscriptionKey>, fs: Seq<EstFinding>, threshold: DecView, below: bool, monthly: bool) -> bool {
    &&& gated_scale(ks, fs, threshold, below, monthly) <= 28
    &&& gated_magnitude(ks, fs, threshold, below, monthly)
        < crate::dec::magnitude_bound() * pow10((28 - gated_scale(ks, fs, threshold, below, monthly)) as nat)
}

proof fn lemma_gated_prefix(ks: Seq<SubscriptionKey>, fs: Seq<EstFinding>, threshold: DecView, below: bool, monthly: bool, j: int)
    requires
        0 <= j <= ks.len(),
    ensures
        gated_magnitude(ks.take(j), fs, threshold, below, monthly) <= gated_magnitude(ks, fs, threshold, below, monthly),
        gated_scale(ks.take(j), fs, threshold, below, monthly) <= gated_scale(ks, fs, threshold, below, monthly),
        -gated_magnitude(ks, fs, threshold, below, monthly) <= gated_units(ks, fs, threshold, below, monthly)
            <= gated_magnitude(ks, fs, threshold, below, monthly),
    decreases ks.len(),
{
    if ks.len() > 0 {
        let prev = ks.drop_last();
        if j == ks.len() {
            assert(ks.take(j) =~= ks);
            lemma_gated_prefix(prev, fs, threshold, below, monthly, 0);
        } else {
            assert(ks.take(j) =~= prev.take(j));
            lemma_gated_prefix(prev, fs, threshold, below, monthly, j);
        }
    }
}

/// One step of a running total in key order: `acc` holds the exact sum of the first `j`
/// figures, and the next is added with `Decimal::saturating_add`.
proof fn lemma_gated_step(ks: Seq<SubscriptionKey>, fs: Seq<EstFinding>, threshold: DecView, below: bool, monthly: bool, j: int, acc: DecView)
    requires
        0 <= j < ks.len(),
        gated_sum_fits(ks, fs, threshold, below, monthly),
        acc.units() == gated_units(ks.take(j), fs, threshold, below, monthly),
        acc.scale <= gated_scale(ks.take(j), fs, threshold, below, monthly),
        under_gate(rollup(fs, ks[j]).unwrap(), threshold) == below,
    ensures
        crate::dec::fits_at(acc.units() + figure(rollup(fs, ks[j]).unwrap(), monthly).units(),
            crate::dec::max_scale(acc, figure(rollup(fs, ks[j]).unwrap(), monthly))),
        acc.units() + figure(rollup(fs, ks[j]).unwrap(), monthly).units() == gated_units(ks.take(j + 1), fs, threshold, below, monthly),
        crate::dec::max_scale(acc, figure(rollup(fs, ks[j]).unwrap(), monthly)) <= gated_scale(ks.take(j + 1), fs, threshold, below, monthly),
{
    let x = figure(rollup(fs, ks[j]).unwrap(), monthly);
    let t = ks.take(j + 1);
    assert(t.drop_last() =~= ks.take(j));
    assert(t.last() == ks[j]);
    lemma_gated_prefix(ks, fs, threshold, below, monthly, j + 1);
    lemma_gated_prefix(t, fs, threshold, below, monthly, j + 1);
    assert(t.take(j + 1) =~= t);
    let s = crate::dec::max_scale(acc, x);
    let big = gated_scale(ks, fs, threshold, below, monthly);
    assert(s <= big <= 28);
    assert((28 - big) as nat <= (28 - s) as nat);
    crate::dec::lemma_pow10_monotonic((28 - big) as nat, (28 - s) as nat);
    let pb = pow10((28 - big) as nat);
    let ps = pow10((28 - s) as nat);
    assert(crate::dec::magnitude_bound() * pb <= crate::dec::magnitude_bound() * ps) by (nonlinear_arith)
        requires
            pb <= ps;
}

/// The figures on the other side of the noise gate leave a running total as it was.
proof fn lemma_gated_skip(ks: Seq<SubscriptionKey>, fs: Seq<EstFinding>, threshold: DecView, below: bool, monthly: bool, j: int)
    requires
        0 <= j < ks.len(),
        under_gate(rollup(fs, ks[j]).unwrap(), threshold) != below,
    ensures
        gated_units(ks.take(j + 1), fs, threshold, below, monthly) == gated_units(ks.take(j), fs, threshold, below, monthly),
        gated_scale(ks.take(j + 1), fs, threshold, below, monthly) == gated_scale(ks.take(j), fs, threshold, below, monthly),
{
    let t = ks.take(j + 1);
    assert(t.drop_last() =~= ks.take(j));
    assert(t.last() == ks[j]);
}

/// Apply the noise gate to summaries in key order, and total both sides of it.
#[verifier::rlimit(40)]
fn apply_gate(groups: &mut Vec<EstSubscriptionSummary>, threshold: Dec, fs: Ghost<Seq<EstFinding>>)
    -> (totals: (Dec, Dec, Dec, usize))
    requires
        keys_of(old(groups)@) == sorted_keys(fs@),
        forall|j: int| 0 <= j < old(groups)@.len() ==> #[trigger] tallies(old(groups)@[j], fs@),
    ensures
        keys_of(final(groups)@) == sorted_keys(fs@),
        forall|j: int| 0 <= j < final(groups)@.len() ==> #[trigger] summarizes(final(groups)@[j], fs@, threshold@),
        totals.0@ == gated_total(sorted_keys(fs@), fs@, threshold@, false, true),
        totals.1@ == gated_total(sorted_keys(fs@), fs@, threshold@, false, false),
        totals.2@ == gated_total(sorted_keys(fs@), fs@, threshold@, true, true),
        totals.3 == gated_count(sorted_keys(fs@), fs@, threshold@),
        gated_sum_fits(sorted_keys(fs@), fs@, threshold@, false, true) ==>
            totals.0@.units() == gated_units(sorted_keys(fs@), fs@, threshold@, false, true),
        gated_sum_fits(sorted_keys(fs@), fs@, threshold@, false, false) ==>
            totals.1@.units() == gated_units(sorted_keys(fs@), fs@, threshold@, false, false),
        gated_sum_fits(sorted_keys(fs@), fs@, threshold@, true, true) ==>
            totals.2@.units() == gated_units(sorted_keys(fs@), fs@, threshold@, true, true),
{
    let ghost ks = sorted_keys(fs@);
    let mut total_monthly = Dec::zero();
    let mut total_uplift = Dec::zero();
    let mut suppressed_monthly = Dec::zero();
    let mut suppressed_count: usize = 0;
    let mut j: usize = 0;
    proof {
        assert(ks.take(0) =~= Seq::<SubscriptionKey>::empty());
        crate::dec::lemma_zero_units(dv(false, 0, 0));
    }
    while j < groups.len()
        invariant
            j <= groups.len(),
            groups@.len() == ks.len(),
            keys_of(groups@) == ks,
            ks == sorted_keys(fs@),
            forall|m: int| 0 <= m < groups@.len() ==> #[trigger] tallies(groups@[m], fs@),
            forall|m: int| 0 <= m < j ==> #[trigger] summarizes(groups@[m], fs@, threshold@),
            total_monthly@ == gated_total(ks.take(j as int), fs@, threshold@, false, true),
            total_uplift@ == gated_total(ks.take(j as int), fs@, threshold@, false, false),
            suppressed_monthly@ == gated_total(ks.take(j as int), fs@, threshold@, true, true),
            suppressed_count == gated_count(ks.take(j as int), fs@, threshold@),
            suppressed_count <= j,
            gated_sum_fits(ks, fs@, threshold@, false, true) ==>
                total_monthly@.units() == gated_units(ks.take(j as int), fs@, threshold@, false, true)
                && total_monthly@.scale <= gated_scale(ks.take(j as int), fs@, threshold@, false, true),
            gated_sum_fits(ks, fs@, threshold@, false, false) ==>
                total_uplift@.units() == gated_units(ks.take(j as int), fs@, threshold@, false, false)
                && total_uplift@.scale <= gated_scale(ks.take(j as int), fs@, threshold@, false, false),
            gated_sum_fits(ks, fs@, threshold@, true, true) ==>
                suppressed_monthly@.units() == gated_units(ks.take(j as int), fs@, threshold@, true, true)
                && suppressed_monthly@.scale <= gated_scale(ks.take(j as int), fs@, threshold@, true, true),
        decreases groups.len() - j,
    {
        let ghost before = groups@;
        proof {
            assert(ks.take(j + 1).drop_last() =~= ks.take(j as int));
            assert(ks.take(j + 1).last() == ks[j as int]);
            assert(ks[j as int] == summary_key(before[j as int]));
            assert(tallies(before[j as int], fs@));
        }
        let below = below_gate(&groups[j].monthly_run_rate, &threshold);
        groups[j].below_noise_threshold = below;
        let ghost (m0, u0, s0) = (total_monthly@, total_uplift@, suppressed_monthly@);
        if below {
            suppressed_monthly = saturating_add(suppressed_monthly, groups[j].monthly_run_rate);
            suppressed_count = suppressed_count + 1;
            proof {
                if gated_sum_fits(ks, fs@, threshold@, true, true) {
                    lemma_gated_step(ks, fs@, threshold@, true, true, j as int, s0);
                }
                lemma_gated_skip(ks, fs@, threshold@, false, true, j as int);
                lemma_gated_skip(ks, fs@, threshold@, false, false, j as int);
            }
        } else {
            total_monthly = saturating_add(total_monthly, groups[j].monthly_run_rate);
            total_uplift = saturating_add(total_uplift, groups[j].uplift_amount);
            proof {
                if gated_sum_fits(ks, fs@, threshold@, false, true) {
                    lemma_gated_step(ks, fs@, threshold@, false, true, j as int, m0);
                }
                if gated_sum_fits(ks, fs@, threshold@, false, false) {
                    lemma_gated_step(ks, fs@, threshold@, false, false, j as int, u0);
                }
                lemma_gated_skip(ks, fs@, threshold@, true, true, j as int);
            }
        }
        proof {
            assert forall|m: int| 0 <= m < groups@.len() implies #[trigger] tallies(groups@[m], fs@) by {
                assert(tallies(before[m], fs@));
            }
            assert(keys_of(groups@) =~= keys_of(before));
        }
        j = j + 1;
    }
    proof {
        assert(ks.take(ks.len() as int) =~= ks);
    }
    (total_monthly, total_uplift, suppressed_monthly, suppressed_count)
}

pub proof fn lemma_ranks_before_transitive(a: EstSubscriptionSummary, b: EstSubscriptionSummary, c: EstSubscriptionSummary)
    requires
        ranks_before(a, b),
        ranks_before(b, c),
    ensures
        ranks_before(a, c),
{
    if a.monthly_run_rate@.units() == b.monthly_run_rate@.units() && b.monthly_run_rate@.units() == c.monthly_run_rate@.units() {
        lemma_key_lt_transitive(summary_key(a), summary_key(b), summary_key(c));
    }
}

pub proof fn lemma_ranks_before_total(a: EstSubscriptionSummary, b: EstSubscriptionSummary)
    requires
        summary_key(a) != summary_key(b),
    ensures
        ranks_before(a, b) || ranks_before(b, a),
{
    lemma_key_lt_total(summary_key(a), summary_key(b));
}

/// Summaries strictly in report order.
pub open spec fn rank_sorted(s: Seq<EstSubscriptionSummary>) -> bool {
    forall|i: int, j: int| 0 <= i < j < s.len() ==> ranks_before(#[trigger] s[i], #[trigger] s[j])
}

/// Whether `a` is listed before `b` (see [`ranks_before`]).
fn rank_less(a: &EstSubscriptionSummary, b: &EstSubscriptionSummary) -> (r: bool)
    ensures
        r == ranks_before(*a, *b),
{
    b.monthly_run_rate.lt(&a.monthly_run_rate)
        || (a.monthly_run_rate.value_eq(&b.monthly_run_rate)
            && key_less(a.customer_id.as_str(), a.subscription_id.as_str(), b.customer_id.as_str(), b.subscription_id.as_str()))
}

/// Where `g` belongs in a list in report order: after every summary listed before it.
fn rank_slot(ordered: &Vec<EstSubscriptionSummary>, g: &EstSubscriptionSummary) -> (p: usize)
    requires
        rank_sorted(ordered@),
    ensures
        p <= ordered@.len(),
        forall|m: int| 0 <= m < p ==> ranks_before(#[trigger] ordered@[m], *g),
        forall|m: int| p <= m < ordered@.len() ==> !ranks_before(#[trigger] ordered@[m], *g),
{
    let mut lo: usize = 0;
    let mut hi: usize = ordered.len();
    while lo < hi
        invariant
            lo <= hi <= ordered.len(),
            rank_sorted(ordered@),
            forall|m: int| 0 <= m < lo ==> ranks_before(#[trigger] ordered@[m], *g),
            forall|m: int| hi <= m < ordered@.len() ==> !ranks_before(#[trigger] ordered@[m], *g),
        decreases hi - lo,
    {
        let mid = lo + (hi - lo) / 2;
        if rank_less(&ordered[mid], g) {
            proof {
                assert forall|m: int| 0 <= m < mid + 1 implies ranks_before(#[trigger] ordered@[m], *g) by {
                    if m < mid {
                        lemma_ranks_before_transitive(ordered@[m], ordered@[mid as int], *g);
                    }
                }
            }
            lo = mid + 1;
        } else {
            proof {
                assert forall|m: int| mid <= m < ordered@.len() implies !ranks_before(#[trigger] ordered@[m], *g) by {
                    if m > mid && ranks_before(ordered@[m], *g) {
                        lemma_ranks_before_transitive(ordered@[mid as int], ordered@[m], *g);
                    }
                }
            }
            hi = mid;
        }
    }
    lo
}

/// The summaries in report order: largest monthly run rate first, ties by key.
fn rank_order(groups: Vec<EstSubscriptionSummary>, fs: Ghost<Seq<EstFinding>>, threshold: Ghost<DecView>) -> (ordered: Vec<EstSubscriptionSummary>)
    requires
        strictly_sorted(keys_of(groups@)),
        forall|j: int| 0 <= j < groups@.len() ==> #[trigger] summarizes(groups@[j], fs@, threshold@),
    ensures
        ordered@.len() == groups@.len(),
        rank_sorted(ordered@),
        forall|i: int| 0 <= i < ordered@.len() ==> #[trigger] summarizes(ordered@[i], fs@, threshold@)
            && keys_of(groups@).contains(summary_key(ordered@[i])),
{
    let ghost orig = groups@;
    let ghost n = groups@.len();
    let mut rest = groups;
    let mut ordered: Vec<EstSubscriptionSummary> = Vec::new();
    // `src[i]` is where `ordered[i]` came from.
    let ghost mut src: Seq<int> = Seq::empty();
    while rest.len() > 0
        invariant
            rest@ == orig.take(rest@.len() as int),
            rest@.len() <= n,
            n == orig.len(),
            ordered@.len() + rest@.len() == n,
            strictly_sorted(keys_of(orig)),
            rank_sorted(ordered@),
            src.len() == ordered@.len(),
            forall|i: int| 0 <= i < ordered@.len() ==> rest@.len() <= #[trigger] src[i] < n && ordered@[i] == orig[src[i]],
            forall|j: int| 0 <= j < orig.len() ==> #[trigger] summarizes(orig[j], fs@, threshold@),
        decreases rest.len(),
    {
        let ghost before = ordered@;
        let ghost before_src = src;
        let ghost len = rest@.len();
        let g = rest.pop().unwrap();
        proof {
            assert(g == orig[len - 1]);
            assert(rest@ =~= orig.take(len - 1));
        }
        let p = rank_slot(&ordered, &g);
        ordered.insert(p, g);
        proof {
            src = before_src.take(p as int).push(len - 1) + before_src.skip(p as int);
            // `g`'s key differs from every key already placed.
            assert forall|i: int| 0 <= i < before.len() implies summary_key(#[trigger] before[i]) != summary_key(g) by {
                let m = before_src[i];
                assert(keys_of(orig)[len - 1] == summary_key(g));
                assert(keys_of(orig)[m] == summary_key(before[i]));
                assert(key_lt(keys_of(orig)[len - 1], keys_of(orig)[m]));
                lemma_key_lt_irreflexive(summary_key(g));
            }
            assert forall|a: int, b: int| 0 <= a < b < ordered@.len() implies ranks_before(#[trigger] ordered@[a], #[trigger] ordered@[b]) by {
                if b < p {
                    assert(ordered@[a] == before[a] && ordered@[b] == before[b]);
                } else if b == p {
                    assert(ordered@[a] == before[a] && ordered@[b] == g);
                } else if a < p {
                    assert(ordered@[a] == before[a] && ordered@[b] == before[b - 1]);
                    lemma_ranks_before_total(before[p as int], g);
                    lemma_ranks_before_transitive(before[a], g, before[p as int]);
                    if b - 1 > p {
                        lemma_ranks_before_transitive(before[a], before[p as int], before[b - 1]);
                    }
                } else if a == p {
                    assert(ordered@[a] == g && ordered@[b] == before[b - 1]);
                    lemma_ranks_before_total(before[p as int], g);
                    if b - 1 > p {
                        lemma_ranks_before_transitive(g, before[p as int], before[b - 1]);
                    }
                } else {
                    assert(ordered@[a] == before[a - 1] && ordered@[b] == before[b - 1]);
                }
            }
            assert forall|i: int| 0 <= i < ordered@.len() implies rest@.len() <= #[trigger] src[i] < n && ordered@[i] == orig[src[i]] by {
                if i < p {
                    assert(ordered@[i] == before[i] && src[i] == before_src[i]);
                } else if i == p {
                    assert(ordered@[i] == orig[len - 1] && src[i] == len - 1);
                } else {
                    assert(ordered@[i] == before[i - 1] && src[i] == before_src[i - 1]);
                }
            }
        }
    }
    proof {
        assert forall|i: int| 0 <= i < ordered@.len() implies #[trigger] summarizes(ordered@[i], fs@, threshold@)
            && keys_of(orig).contains(summary_key(ordered@[i])) by {
            let m = src[i];
            assert(ordered@[i] == orig[m]);
            assert(summarizes(orig[m], fs@, threshold@));
            assert(keys_of(orig)[m] == summary_key(ordered@[i]));
        }
    }
    ordered
}

/// `r` is the report a detector in state `d` finishes with: every finding kept; one
/// summary per subscription, in report order; the headline and suppressed totals summed in
/// key order on each side of the noise gate.
pub open spec fn report_of(d: EstDetectorView, r: EstReport) -> bool {
    let fs = d.findings;
    let threshold = d.policy.noise_threshold_monthly@;
    let ks = sorted_keys(fs);
    &&& r.findings@ == fs
    &&& r.noise_threshold_monthly@ == threshold
    &&& r.subscriptions@.len() == ks.len()
    &&& forall|i: int| 0 <= i < r.subscriptions@.len() ==>
        #[trigger] summarizes(r.subscriptions@[i], fs, threshold) && ks.contains(summary_key(r.subscriptions@[i]))
    &&& rank_sorted(r.subscriptions@)
    &&& r.total_monthly_run_rate@ == gated_total(ks, fs, threshold, false, true)
    &&& r.total_uplift_amount@ == gated_total(ks, fs, threshold, false, false)
    &&& r.suppressed_monthly_run_rate@ == gated_total(ks, fs, threshold, true, true)
    &&& r.suppressed_subscription_count == gated_count(ks, fs, threshold)
    // Totals are exact whenever they can be.
    &&& gated_sum_fits(ks, fs, threshold, false, true) ==> r.total_monthly_run_rate@.units() == gated_units(ks, fs, threshold, false, true)
    &&& gated_sum_fits(ks, fs, threshold, false, false) ==> r.total_uplift_amount@.units() == gated_units(ks, fs, threshold, false, false)
    &&& gated_sum_fits(ks, fs, threshold, true, true) ==> r.suppressed_monthly_run_rate@.units() == gated_units(ks, fs, threshold, true, true)
}

impl EstDetector {
    /// Roll the findings up per subscription and apply the noise gate.
    ///
    /// Every finding is kept. Each subscription gets one summary, listed largest monthly
    /// run rate first (ties by customer, then subscription); those whose run rate is under
    /// the noise threshold in absolute value are flagged and counted apart from the
    /// headline totals, which are summed in key order.
    pub fn finish(self) -> (r: EstReport)
        ensures
            report_of(self@, r),
    {
        let ghost fs = self.findings@;
        let threshold = self.policy.noise_threshold_monthly;
        let mut groups = group_findings(&self.findings);
        proof {
            lemma_sorted_keys(fs);
        }
        let totals = apply_gate(&mut groups, threshold, Ghost(fs));
        proof {
            lemma_sorted_keys(fs);
        }
        let subscriptions = rank_order(groups, Ghost(fs), Ghost(threshold@));
        EstReport {
            findings: self.findings,
            subscriptions,
            total_monthly_run_rate: totals.0,
            total_uplift_amount: totals.1,
            suppressed_monthly_run_rate: totals.2,
            suppressed_subscription_count: totals.3,
            noise_threshold_monthly: threshold,
        }
    }
}

impl EstReport {
    /// Subscriptions that clear the noise gate, in report order.
    pub fn reportable(&self) -> (r: Vec<&EstSubscriptionSummary>)
        ensures
            r@.map_values(|x: &EstSubscriptionSummary| *x) == self.subscriptions@.filter(|s: EstSubscriptionSummary| !s.below_noise_threshold),
    {
        let ghost all = self.subscriptions@;
        let ghost keep = |s: EstSubscriptionSummary| !s.below_noise_threshold;
        let mut r: Vec<&EstSubscriptionSummary> = Vec::new();
        let mut i: usize = 0;
        proof {
            assert(all.take(0) =~= Seq::<EstSubscriptionSummary>::empty());
        }
        while i < self.subscriptions.len()
            invariant
                i <= self.subscriptions.len(),
                all == self.subscriptions@,
                keep == (|s: EstSubscriptionSummary| !s.below_noise_threshold),
                r@.map_values(|x: &EstSubscriptionSummary| *x) == all.take(i as int).filter(keep),
            decreases self.subscriptions.len() - i,
        {
            proof {
                assert(all.take(i + 1).drop_last() =~= all.take(i as int));
                reveal_with_fuel(Seq::filter, 1);
            }
            let s = &self.subscriptions[i];
            if !s.below_noise_threshold {
                let ghost before = r@;
                r.push(s);
                proof {
                    assert(all.take(i + 1).filter(keep) =~= all.take(i as int).filter(keep).push(all[i as int]));
                    assert(r@.map_values(|x: &EstSubscriptionSummary| *x) =~= before.map_values(|x: &EstSubscriptionSummary| *x).push(all[i as int]));
                }
            } else {
                proof {
                    assert(all.take(i + 1).filter(keep) =~= all.take(i as int).filter(keep));
                }
            }
            i = i + 1;
        }
        proof {
            assert(all.take(all.len() as int) =~= all);
        }
        r
    }
}

// ---------------------------------------------------------------------------------------
// Laws
// ---------------------------------------------------------------------------------------

/// A charge that starts before the policy's effective date is never an EST finding,
/// whatever its prices look like.
pub proof fn law_no_finding_before_the_policy(p: EstPolicy, row: ReconRow)
    requires
        row.charge_start_date matches Some(s) && s@.before(p.effective_from@),
    ensures
        est_terms(p, row) is None,
{
}

/// Cost is `EffectiveUnitPrice x BillableQuantity`: every finding is built on the price
/// actually charged and the seats actually billed (signed by the charge type), and its
/// amount is the per-seat uplift times those seats.
pub proof fn law_findings_use_the_effective_price(p: EstPolicy, row: ReconRow)
    requires
        est_terms(p, row) is Some,
    ensures
        row.effective_unit_price matches Some(e) && est_terms(p, row).unwrap().effective == e@,
        row.billable_quantity matches Some(q)
            && est_terms(p, row).unwrap().quantity == signed_quantity(q@, kind_sign(row.charge_type@)),
        decimal_product(est_terms(p, row).unwrap().uplift_per_seat, est_terms(p, row).unwrap().quantity)
            == Some(est_terms(p, row).unwrap().amount),
        est_terms(p, row).unwrap().effective.units() > 0,
        est_terms(p, row).unwrap().uplift_per_seat.units() > 0,
        est_terms(p, row).unwrap().quantity.magnitude != 0,
{
}

/// A credit line (negative charge direction) that matches carries negative seats, so its
/// penalty nets against the charge it reverses instead of adding to it.
pub proof fn law_credit_lines_carry_negative_seats(p: EstPolicy, row: ReconRow)
    requires
        kind_sign(row.charge_type@) < 0,
        est_terms(p, row) is Some,
    ensures
        est_terms(p, row).unwrap().quantity.negative,
        est_terms(p, row).unwrap().quantity.units() < 0,
{
    let q = est_terms(p, row).unwrap().quantity;
    assert(q.magnitude >= 1);
    crate::dec::lemma_pow10_positive((28 - q.scale) as nat);
    let pw = pow10((28 - q.scale) as nat);
    assert(q.magnitude * pw >= 1) by (nonlinear_arith)
        requires
            q.magnitude >= 1,
            pw >= 1;
}

/// Summaries in report order name distinct subscriptions: one alert per subscription,
/// never one per line.
pub proof fn law_one_summary_per_subscription(subs: Seq<EstSubscriptionSummary>, fs: Seq<EstFinding>, threshold: DecView, i: int, j: int)
    requires
        rank_sorted(subs),
        forall|m: int| 0 <= m < subs.len() ==> #[trigger] summarizes(subs[m], fs, threshold),
        0 <= i < j < subs.len(),
    ensures
        summary_key(subs[i]) != summary_key(subs[j]),
{
    if summary_key(subs[i]) == summary_key(subs[j]) {
        assert(summarizes(subs[i], fs, threshold));
        assert(summarizes(subs[j], fs, threshold));
        assert(subs[i].monthly_run_rate@ == subs[j].monthly_run_rate@);
        assert(ranks_before(subs[i], subs[j]));
        lemma_key_lt_irreflexive(summary_key(subs[i]));
    }
}

/// Every finding points back at its row from its subscription's rollup: the rollup of a
/// finding's key lists the finding's record index.
pub proof fn law_every_finding_is_in_its_rollup(fs: Seq<EstFinding>, i: int)
    requires
        0 <= i < fs.len(),
    ensures
        rollup(fs, finding_key(fs[i])) matches Some(a) && a.indices.contains(fs[i].record_index),
    decreases fs.len(),
{
    let k = finding_key(fs[i]);
    let prev = fs.drop_last();
    if i == fs.len() - 1 {
        match rollup(prev, k) {
            None => {
                assert(rollup(fs, k).unwrap().indices[0] == fs[i].record_index);
            },
            Some(a) => {
                let b = rollup(fs, k).unwrap();
                assert(b.indices[b.indices.len() - 1] == fs[i].record_index);
            },
        }
    } else {
        assert(prev[i] == fs[i]);
        law_every_finding_is_in_its_rollup(prev, i);
        let a = rollup(prev, k).unwrap();
        let x = choose|m: int| 0 <= m < a.indices.len() && a.indices[m] == fs[i].record_index;
        if finding_key(fs.last()) == k {
            let b = rollup(fs, k).unwrap();
            assert(b.indices == a.indices.push(fs.last().record_index));
            assert(b.indices[x] == fs[i].record_index);
        }
    }
}

/// The number of lines rolled up under the keys `ks`.
pub open spec fn line_total(ks: Seq<SubscriptionKey>, fs: Seq<EstFinding>) -> int
    decreases ks.len(),
{
    if ks.len() == 0 {
        0
    } else {
        line_total(ks.drop_last(), fs) + match rollup(fs, ks.last()) {
            Some(a) => a.count as int,
            None => 0,
        }
    }
}

proof fn lemma_line_total_concat(a: Seq<SubscriptionKey>, b: Seq<SubscriptionKey>, fs: Seq<EstFinding>)
    ensures
        line_total(a + b, fs) == line_total(a, fs) + line_total(b, fs),
    decreases b.len(),
{
    if b.len() == 0 {
        assert(a + b =~= a);
    } else {
        assert((a + b).drop_last() =~= a + b.drop_last());
        lemma_line_total_concat(a, b.drop_last(), fs);
    }
}

/// Line totals over keys that do not include `k` ignore the findings keyed `k`.
proof fn lemma_line_total_other(ks: Seq<SubscriptionKey>, fs: Seq<EstFinding>, k: SubscriptionKey)
    requires
        fs.len() > 0,
        finding_key(fs.last()) == k,
        !ks.contains(k),
    ensures
        line_total(ks, fs) == line_total(ks, fs.drop_last()),
    decreases ks.len(),
{
    if ks.len() > 0 {
        assert(!ks.drop_last().contains(k)) by {
            if ks.drop_last().contains(k) {
                let m = choose|m: int| 0 <= m < ks.drop_last().len() && ks.drop_last()[m] == k;
                assert(ks[m] == k);
            }
        }
        lemma_line_total_other(ks.drop_last(), fs, k);
        assert(ks.last() != k) by {
            if ks.last() == k {
                assert(ks[ks.len() - 1] == k);
            }
        }
    }
}

/// A line declared as EST whose price does not match a configured rate and whose text
/// names none either.
pub open spec fn unpriced_declaration(p: EstPolicy, row: ReconRow) -> bool {
    &&& declared_in(p.description_markers@, row.price_adjustment_description@)
    &&& row.effective_unit_price matches Some(e) && ratio_rate(p, e@, opt_view(row.unit_price)) is None
    &&& text_rate(p, row.price_adjustment_description@) is None
}

/// The policy's rates run from smallest to largest.
pub open spec fn rates_ascending(p: EstPolicy) -> bool {
    forall|a: int, b: int| 0 <= a < b < p.rates@.len() ==> #[trigger] p.rates@[a].rate@.units() <= #[trigger] p.rates@[b].rate@.units()
}

/// Declared but corroborated by neither the price nor the text: the finding claims the
/// smallest rate of the policy, so that it under-claims rather than over-claims. Under the
/// 2026-05 policy (whose rates do run upwards) that is 3%.
pub proof fn law_an_unpriced_declaration_claims_the_smallest_rate(p: EstPolicy, row: ReconRow)
    requires
        est_terms(p, row) is Some,
        unpriced_declaration(p, row),
    ensures
        est_terms(p, row).unwrap().kind == EstEvidenceKind::DeclaredNotCorroborated,
        rates_ascending(p) ==> forall|k: int| 0 <= k < p.rates@.len() ==>
            p.rates@[est_terms(p, row).unwrap().rate_index].rate@.units() <= #[trigger] p.rates@[k].rate@.units(),
        policy_2026_05(p) ==> rates_ascending(p)
            && p.rates@[est_terms(p, row).unwrap().rate_index].rate@ == dv(false, 3, 2),
{
    let t = est_terms(p, row).unwrap();
    assert(t.rate_index == 0);
    if rates_ascending(p) {
        assert forall|k: int| 0 <= k < p.rates@.len() implies
            p.rates@[t.rate_index].rate@.units() <= #[trigger] p.rates@[k].rate@.units() by {
            if k > 0 {
                assert(p.rates@[0].rate@.units() <= p.rates@[k].rate@.units());
            }
        }
    }
    if policy_2026_05(p) {
        crate::dec::lemma_pow10_positive(26);
        assert(3 * pow10(26) <= 23 * pow10(26));
        assert(p.rates@[0].rate@.units() <= p.rates@[1].rate@.units());
    }
}

/// A charge period of 28 to 31 days (or of unknown length) already is a month: the run
/// rate of its penalty is the penalty itself, never rescaled.
pub proof fn law_a_month_long_charge_is_its_own_run_rate(p: EstPolicy, row: ReconRow)
    requires
        est_terms(p, row) is Some,
        charge_days_of(row.charge_start_date, row.charge_end_date) matches Some(d) ==> 28 <= d <= 31,
    ensures
        est_terms(p, row).unwrap().monthly == est_terms(p, row).unwrap().amount,
{
}

/// The finished report lists subscriptions by monthly run rate, largest first, and equal
/// run rates by customer, then subscription.
pub proof fn law_subscriptions_rank_by_run_rate(d: EstDetectorView, r: EstReport, i: int, j: int)
    requires
        report_of(d, r),
        0 <= i < j < r.subscriptions@.len(),
    ensures
        r.subscriptions@[i].monthly_run_rate@.units() >= r.subscriptions@[j].monthly_run_rate@.units(),
        r.subscriptions@[i].monthly_run_rate@.units() == r.subscriptions@[j].monthly_run_rate@.units()
            ==> key_lt(summary_key(r.subscriptions@[i]), summary_key(r.subscriptions@[j])),
{
    assert(ranks_before(r.subscriptions@[i], r.subscriptions@[j]));
}

/// Suppress, never delete: the rollups of a file's subscriptions account for every one of
/// its findings, each exactly once.
pub proof fn law_every_line_is_counted(fs: Seq<EstFinding>)
    ensures
        line_total(sorted_keys(fs), fs) == fs.len(),
    decreases fs.len(),
{
    if fs.len() > 0 {
        let prev = fs.drop_last();
        let k = finding_key(fs.last());
        law_every_line_is_counted(prev);
        lemma_sorted_keys(prev);
        lemma_sorted_keys(fs);
        let ks = sorted_keys(prev);
        if ks.contains(k) {
            let j = choose|j: int| 0 <= j < ks.len() && ks[j] == k;
            let left = ks.take(j);
            let right = ks.skip(j + 1);
            assert(ks =~= left + seq![k] + right);
            assert(!left.contains(k)) by {
                if left.contains(k) {
                    let m = choose|m: int| 0 <= m < left.len() && left[m] == k;
                    assert(key_lt(ks[m], ks[j]));
                    lemma_key_lt_irreflexive(k);
                }
            }
            assert(!right.contains(k)) by {
                if right.contains(k) {
                    let m = choose|m: int| 0 <= m < right.len() && right[m] == k;
                    assert(key_lt(ks[j], ks[j + 1 + m]));
                    lemma_key_lt_irreflexive(k);
                }
            }
            lemma_line_total_concat(left + seq![k], right, fs);
            lemma_line_total_concat(left, seq![k], fs);
            lemma_line_total_concat(left + seq![k], right, prev);
            lemma_line_total_concat(left, seq![k], prev);
            lemma_line_total_other(left, fs, k);
            lemma_line_total_other(right, fs, k);
            assert(seq![k].drop_last() =~= Seq::<SubscriptionKey>::empty());
            assert(rollup(prev, k) is Some);
            assert(rollup(fs, k).unwrap().count == rollup(prev, k).unwrap().count + 1);
            assert(line_total(Seq::<SubscriptionKey>::empty(), fs) == 0);
            assert(line_total(Seq::<SubscriptionKey>::empty(), prev) == 0);
            assert(seq![k].last() == k);
            assert(line_total(seq![k], fs) == rollup(fs, k).unwrap().count);
            assert(line_total(seq![k], prev) == rollup(prev, k).unwrap().count);
            assert(sorted_keys(fs) == ks);
        } else {
            let j = lower_slot(ks, k);
            lemma_lower_slot(ks, k);
            lemma_slot(ks, k, j);
            let left = ks.take(j);
            let right = ks.skip(j);
            assert(ks =~= left + right);
            assert(!left.contains(k) && !right.contains(k)) by {
                if left.contains(k) {
                    let m = choose|m: int| 0 <= m < left.len() && left[m] == k;
                    assert(ks[m] == k);
                }
                if right.contains(k) {
                    let m = choose|m: int| 0 <= m < right.len() && right[m] == k;
                    assert(ks[j + m] == k);
                }
            }
            assert(rollup(prev, k) is None);
            lemma_line_total_concat(left + seq![k], right, fs);
            lemma_line_total_concat(left, seq![k], fs);
            lemma_line_total_concat(left, right, prev);
            lemma_line_total_other(left, fs, k);
            lemma_line_total_other(right, fs, k);
            assert(seq![k].drop_last() =~= Seq::<SubscriptionKey>::empty());
            assert(sorted_keys(fs) == left.push(k) + right);
            assert(left.push(k) =~= left + seq![k]);
            assert(rollup(fs, k).unwrap().count == 1);
            assert(line_total(Seq::<SubscriptionKey>::empty(), fs) == 0);
            assert(seq![k].last() == k);
            assert(line_total(seq![k], fs) == 1);
        }
    }
}

/// Whether summary `s` is the subscription of finding `f`.
pub(crate) fn same_key(s: &EstSubscriptionSummary, f: &EstFinding) -> (r: bool)
    ensures
        r == (summary_key(*s) == finding_key(*f)),
{
    text_equal(s.customer_id.as_str(), f.customer_id.as_str()) && text_equal(s.subscription_id.as_str(), f.subscription_id.as_str())
}

/// A subscription's confidence is the lowest of its lines': no line is less certain than
/// the summary says, and the summary's figure is one of its lines'.
pub proof fn law_confidence_is_the_lowest(fs: Seq<EstFinding>, k: SubscriptionKey)
    requires
        rollup(fs, k) is Some,
    ensures
        forall|i: int| 0 <= i < fs.len() && finding_key(fs[i]) == k ==>
            rollup(fs, k).unwrap().confidence.units() <= (#[trigger] fs[i]).confidence@.units(),
        exists|i: int| 0 <= i < fs.len() && finding_key(fs[i]) == k
            && rollup(fs, k).unwrap().confidence == (#[trigger] fs[i]).confidence@,
    decreases fs.len(),
{
    let prev = fs.drop_last();
    let f = fs.last();
    let last = fs.len() - 1;
    assert(fs[last] == f);
    if finding_key(f) != k {
        law_confidence_is_the_lowest(prev, k);
        assert forall|i: int| 0 <= i < fs.len() && finding_key(fs[i]) == k implies
            rollup(fs, k).unwrap().confidence.units() <= (#[trigger] fs[i]).confidence@.units() by {
            assert(prev[i] == fs[i]);
        }
        let w = choose|i: int| 0 <= i < prev.len() && finding_key(prev[i]) == k
            && rollup(prev, k).unwrap().confidence == (#[trigger] prev[i]).confidence@;
        assert(fs[w] == prev[w]);
    } else {
        match rollup(prev, k) {
            None => {
                assert forall|i: int| 0 <= i < fs.len() && finding_key(fs[i]) == k implies
                    rollup(fs, k).unwrap().confidence.units() <= (#[trigger] fs[i]).confidence@.units() by {
                    if i < last {
                        assert(prev[i] == fs[i]);
                        lemma_sorted_keys(prev);
                        assert(sorted_keys(prev).contains(k));
                    }
                }
            },
            Some(a) => {
                law_confidence_is_the_lowest(prev, k);
                assert forall|i: int| 0 <= i < fs.len() && finding_key(fs[i]) == k implies
                    rollup(fs, k).unwrap().confidence.units() <= (#[trigger] fs[i]).confidence@.units() by {
                    if i < last {
                        assert(prev[i] == fs[i]);
                    }
                }
                if f.confidence@.units() < a.confidence.units() {
                } else {
                    let w = choose|i: int| 0 <= i < prev.len() && finding_key(prev[i]) == k
                        && rollup(prev, k).unwrap().confidence == (#[trigger] prev[i]).confidence@;
                    assert(fs[w] == prev[w]);
                }
            },
        }
    }
}

/// Mixed windows collapse to the more conservative one: a subscription waits for renewal
/// as soon as one of its lines does.
pub proof fn law_at_renewal_wins(fs: Seq<EstFinding>, i: int)
    requires
        0 <= i < fs.len(),
        fs[i].remediation_window == RemediationWindow::AtRenewal,
    ensures
        rollup(fs, finding_key(fs[i])) matches Some(a) && a.window == RemediationWindow::AtRenewal,
    decreases fs.len(),
{
    let k = finding_key(fs[i]);
    let prev = fs.drop_last();
    let f = fs.last();
    assert(f == fs[fs.len() - 1]);
    if i < fs.len() - 1 {
        assert(prev[i] == fs[i]);
        law_at_renewal_wins(prev, i);
    } else {
        assert(finding_key(f) == k);
        match rollup(prev, k) {
            None => {},
            Some(a) => {},
        }
    }
}

} // verus!
