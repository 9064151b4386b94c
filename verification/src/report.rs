//! The analysis payload handed to the user interface.
//!
//! Money never crosses this boundary as a number: a JavaScript `number` is a binary double,
//! and turning an exact decimal into one at the very last step would throw away the exact
//! arithmetic on the figure the user actually reads. Every amount crosses as a [`Money`], an
//! exact decimal string plus a rounded display string, and the order of the findings table
//! is decided here so the front end never compares money.
//!
//! Reading the input, and timing and serialising the result, happen outside: this module
//! follows an analysis row by row ([`Analysis`]) and builds the payload from the detector's
//! report and the reader's statistics.

use vstd::prelude::*;

use crate::date::{date_text, Date};
use crate::dec::{checked_mul, decimal_product, digits, normalized, render, rounded_dp, Dec, DecView};
use crate::detectors::est::{
    dv, finding_key, observed, policy_2026_05, report_of, summary_key, EstDetector, EstDetectorView,
    EstEvidenceKind, EstFinding, EstReport, EstSubscriptionSummary,
};
use crate::error::{names_joined, whole_text};
use crate::parser::StreamStats;
use crate::text::{chars_of, eq_text, string_from_chars};
use crate::types::{ReconRow, RemediationWindow};

verus! {

/// Version of the analyser that produced a result. It travels with the payload: a figure
/// about somebody's invoice is worth little without knowing which build of the rules
/// produced it.
pub const ANALYZER_VERSION: &'static str = "0.1.0";

/// A monetary amount, safe to hand to JavaScript.
#[derive(Debug, Clone, PartialEq, Eq)]
pub struct Money {
    /// Exact value as a decimal string. Parse it with a decimal library, never `Number()`.
    pub value: String,
    /// Rounded to two places and formatted with the currency. For display only.
    pub display: String,
}

/// The symbol a currency is written with, for the currencies that have one here.
pub open spec fn symbol_of(currency: Seq<char>) -> Option<Seq<char>> {
    if currency == "USD"@ || currency == "CAD"@ || currency == "AUD"@ || currency == "NZD"@ {
        Some("$"@)
    } else if currency == "EUR"@ {
        Some("\u{20ac}"@)
    } else if currency == "GBP"@ {
        Some("\u{a3}"@)
    } else {
        None
    }
}

fn symbol_for(currency: &str) -> (r: Option<&'static str>)
    ensures
        (match r {
            Some(s) => Some(s@),
            None => None,
        }) == symbol_of(currency@),
{
    let c = chars_of(currency);
    if eq_text(&c, "USD") || eq_text(&c, "CAD") || eq_text(&c, "AUD") || eq_text(&c, "NZD") {
        Some("$")
    } else if eq_text(&c, "EUR") {
        Some("\u{20ac}")
    } else if eq_text(&c, "GBP") {
        Some("\u{a3}")
    } else {
        None
    }
}

/// The display text of an amount: rounded to two places (ties to even), its magnitude
/// written with two decimals, a `-` in front when it is negative and does not round to
/// zero, and the currency as a symbol in front, or its code after, or nothing.
pub open spec fn money_display(v: DecView, currency: Seq<char>) -> Seq<char> {
    let rounded = rounded_dp(v, 2);
    let magnitude = DecView { negative: false, ..rounded };
    let sign = if v.negative && rounded.magnitude != 0 { "-"@ } else { Seq::empty() };
    let text = render(magnitude, 2);
    match symbol_of(currency) {
        Some(sym) => sign + sym + text,
        None => if currency.len() == 0 { sign + text } else { sign + text + " "@ + currency },
    }
}

/// The exact text of an amount: normalised (trailing zeros stripped), then written out.
pub open spec fn exact_text(v: DecView) -> Seq<char> {
    render(normalized(v), normalized(v).scale)
}

impl Money {
    /// `value` in `currency`: the exact text and the display text.
    pub fn new(value: Dec, currency: &str) -> (m: Money)
        ensures
            m.value@ == exact_text(value@),
            m.display@ == money_display(value@, currency@),
    {
        // `round_dp` only ever removes places, so 88.8 stays 88.8; the two-place rendering
        // pads it out to a money-shaped 88.80.
        let magnitude = value.round_dp(2).abs();
        magnitude.check_wf();
        proof {
            crate::dec::lemma_two_places_fit(magnitude@);
        }
        let negative = value.is_sign_negative() && !magnitude.is_zero();
        let text = magnitude.to_string_fixed(2);
        let ghost sign = if negative { "-"@ } else { Seq::<char>::empty() };
        let mut display = String::new();
        if negative {
            display.append("-");
        }
        proof {
            assert(display@ =~= sign);
        }
        match symbol_for(currency) {
            Some(sym) => {
                display.append(sym);
                display.append(text.as_str());
                proof {
                    assert(display@ =~= sign + sym@ + text@);
                }
            },
            None => {
                display.append(text.as_str());
                proof {
                    assert(display@ =~= sign + text@);
                }
                if !currency.is_empty() {
                    display.append(" ");
                    display.append(currency);
                    proof {
                        assert(display@ =~= sign + text@ + " "@ + currency@);
                    }
                }
            },
        }
        // Summing decimals accumulates scale; `normalize` strips the trailing zeros
        // without changing the value, so the exact string stays exact and readable.
        let exact = value.normalize();
        exact.check_wf();
        Money { value: exact.to_string(), display }
    }
}

/// One EST line, shaped for the findings table.
#[derive(Debug, Clone)]
pub struct FindingView {
    /// Row index in the source file: the evidence anchor the user can go and check.
    pub record_index: u64,

    pub customer_id: String,
    pub customer_name: String,
    pub subscription_id: String,
    pub sku_name: String,
    pub product_id: String,
    pub currency: String,

    pub charge_start_date: Option<String>,
    pub charge_end_date: Option<String>,

    /// `"23"`: the uplift as whole percent.
    pub rate_percent: String,
    /// `"+23%"`: ready to render.
    pub rate_label: String,
    /// Why that rate applies.
    pub reason: String,

    pub base_unit_price: Money,
    pub effective_unit_price: Money,
    pub uplift_per_seat: Money,
    /// Seats, as an exact string. Negative on a credit line.
    pub billable_quantity: String,
    pub uplift_amount: Money,
    /// The headline per-line figure.
    pub monthly_run_rate: Money,

    /// `"1.00"` / `"0.90"` / `"0.75"`.
    pub confidence: String,
    /// Plain-language version of the above.
    pub confidence_label: String,
    /// Which signal fired: `declared_and_priced` | `declared` | `price_ratio`.
    pub evidence_kind: String,
    /// `PriceAdjustmentDescription` verbatim.
    pub price_adjustment_description: String,

    /// `NOW` | `AT_RENEWAL` | `NEVER`.
    pub remediation_window: String,
    /// What the partner can actually do about it, in a sentence.
    pub action: String,

    /// True when this line's subscription total sits under the noise gate: render it,
    /// greyed out. It is excluded from the headline, not deleted.
    pub suppressed: bool,
}

/// The plain-language label of each evidence kind.
pub open spec fn confidence_label_of(kind: EstEvidenceKind) -> Seq<char> {
    match kind {
        EstEvidenceKind::DeclaredAndPriced => "Confirmed \u{2014} stated on the line and the price agrees"@,
        EstEvidenceKind::DeclaredNotCorroborated => "Stated by Microsoft, price not corroborated"@,
        EstEvidenceKind::PriceRatio => "Inferred from the price ratio \u{2014} verify before acting"@,
    }
}

fn confidence_label(kind: EstEvidenceKind) -> (r: &'static str)
    ensures
        r@ == confidence_label_of(kind),
{
    match kind {
        EstEvidenceKind::DeclaredAndPriced => "Confirmed \u{2014} stated on the line and the price agrees",
        EstEvidenceKind::DeclaredNotCorroborated => "Stated by Microsoft, price not corroborated",
        EstEvidenceKind::PriceRatio => "Inferred from the price ratio \u{2014} verify before acting",
    }
}

/// The sentence under the Action column. EST rolls a subscription onto a monthly term,
/// which is what makes it fixable now; otherwise the change is scheduled for renewal.
pub open spec fn action_of(window: RemediationWindow) -> Seq<char> {
    match window {
        RemediationWindow::Now => "Cancel or move onto a committed term. The penalty stops at the next monthly cycle."@,
        RemediationWindow::AtRenewal => "Committed until the term ends. Schedule the change now so it lands at renewal."@,
        RemediationWindow::Never => "No action available. Informational only."@,
    }
}

fn action_for(window: RemediationWindow) -> (r: &'static str)
    ensures
        r@ == action_of(window),
{
    match window {
        RemediationWindow::Now => "Cancel or move onto a committed term. The penalty stops at the next monthly cycle.",
        RemediationWindow::AtRenewal => "Committed until the term ends. Schedule the change now so it lands at renewal.",
        RemediationWindow::Never => "No action available. Informational only.",
    }
}

/// The wire name of a remediation window.
pub open spec fn window_text(w: RemediationWindow) -> Seq<char> {
    match w {
        RemediationWindow::Now => "NOW"@,
        RemediationWindow::AtRenewal => "AT_RENEWAL"@,
        RemediationWindow::Never => "NEVER"@,
    }
}

/// The wire name of an evidence kind.
pub open spec fn kind_text(k: EstEvidenceKind) -> Seq<char> {
    match k {
        EstEvidenceKind::DeclaredAndPriced => "declared_and_priced"@,
        EstEvidenceKind::DeclaredNotCorroborated => "declared"@,
        EstEvidenceKind::PriceRatio => "price_ratio"@,
    }
}

/// The uplift as a percentage: `rate x 100` (through `Decimal::checked_mul`); the rate
/// itself when that product overflows.
pub open spec fn percent_of(rate: DecView) -> DecView {
    match decimal_product(rate, dv(false, 100, 0)) {
        Some(p) => p,
        None => rate,
    }
}

/// The text of an optional date.
pub open spec fn opt_date_text(d: Option<Date>) -> Option<Seq<char>> {
    match d {
        Some(x) => Some(date_text(x@)),
        None => None,
    }
}

/// `v` is finding `f` shaped for the table, in `currency` when the line names none, with
/// its subscription's noise-gate verdict `suppressed`.
pub open spec fn shows(v: FindingView, f: EstFinding, currency: Seq<char>, suppressed: bool) -> bool {
    let cur = if f.currency@.len() == 0 { currency } else { f.currency@ };
    &&& v.record_index == f.record_index
    &&& v.customer_id@ == f.customer_id@
    &&& v.customer_name@ == f.customer_name@
    &&& v.subscription_id@ == f.subscription_id@
    &&& v.sku_name@ == f.sku_name@
    &&& v.product_id@ == f.product_id@
    &&& v.currency@ == cur
    &&& (match v.charge_start_date {
        Some(t) => Some(t@),
        None => None,
    }) == opt_date_text(f.charge_start_date)
    &&& (match v.charge_end_date {
        Some(t) => Some(t@),
        None => None,
    }) == opt_date_text(f.charge_end_date)
    &&& v.rate_percent@ == exact_text(percent_of(f.rate@))
    &&& v.rate_label@ == "+"@ + exact_text(percent_of(f.rate@)) + "%"@
    &&& v.reason@ == f.reason@
    &&& v.base_unit_price.value@ == exact_text(f.base_unit_price@)
    &&& v.base_unit_price.display@ == money_display(f.base_unit_price@, cur)
    &&& v.effective_unit_price.value@ == exact_text(f.effective_unit_price@)
    &&& v.effective_unit_price.display@ == money_display(f.effective_unit_price@, cur)
    &&& v.uplift_per_seat.value@ == exact_text(f.uplift_per_seat@)
    &&& v.uplift_per_seat.display@ == money_display(f.uplift_per_seat@, cur)
    &&& v.billable_quantity@ == exact_text(f.billable_quantity@)
    &&& v.uplift_amount.value@ == exact_text(f.uplift_amount@)
    &&& v.uplift_amount.display@ == money_display(f.uplift_amount@, cur)
    &&& v.monthly_run_rate.value@ == exact_text(f.monthly_run_rate@)
    &&& v.monthly_run_rate.display@ == money_display(f.monthly_run_rate@, cur)
    &&& v.confidence@ == render(rounded_dp(f.confidence@, 2), rounded_dp(f.confidence@, 2).scale)
    &&& v.confidence_label@ == confidence_label_of(f.evidence_kind)
    &&& v.evidence_kind@ == kind_text(f.evidence_kind)
    &&& v.price_adjustment_description@ == f.price_adjustment_description@
    &&& v.remediation_window@ == window_text(f.remediation_window)
    &&& v.action@ == action_of(f.remediation_window)
    &&& v.suppressed == suppressed
}

fn date_string(d: Option<Date>) -> (r: Option<String>)
    ensures
        (match r {
            Some(t) => Some(t@),
            None => None,
        }) == opt_date_text(d),
{
    match d {
        Some(x) => Some(x.to_string()),
        None => None,
    }
}

/// Finding `f` shaped for the table (see [`shows`]).
#[verifier::rlimit(30)]
fn view(f: &EstFinding, currency: &str, suppressed: bool) -> (v: FindingView)
    ensures
        shows(v, *f, currency@, suppressed),
{
    let line_currency: &str = if f.currency.as_str().is_empty() { currency } else { f.currency.as_str() };
    let percent = match checked_mul(f.rate, Dec::new(100, 0)) {
        Some(p) => p.normalize(),
        None => f.rate.normalize(),
    };
    percent.check_wf();
    let rate_percent = percent.to_string();
    let mut rate_label = String::new();
    rate_label.append("+");
    rate_label.append(rate_percent.as_str());
    rate_label.append("%");
    proof {
        assert(rate_label@ =~= "+"@ + rate_percent@ + "%"@);
    }
    let confidence = f.confidence.round_dp(2);
    confidence.check_wf();
    let normalized_quantity = f.billable_quantity.normalize();
    normalized_quantity.check_wf();
    FindingView {
        record_index: f.record_index,
        customer_id: f.customer_id.clone(),
        customer_name: f.customer_name.clone(),
        subscription_id: f.subscription_id.clone(),
        sku_name: f.sku_name.clone(),
        product_id: f.product_id.clone(),
        currency: line_currency.to_owned(),
        charge_start_date: date_string(f.charge_start_date),
        charge_end_date: date_string(f.charge_end_date),
        rate_percent,
        rate_label,
        reason: f.reason.to_owned(),
        base_unit_price: Money::new(f.base_unit_price, line_currency),
        effective_unit_price: Money::new(f.effective_unit_price, line_currency),
        uplift_per_seat: Money::new(f.uplift_per_seat, line_currency),
        billable_quantity: normalized_quantity.to_string(),
        uplift_amount: Money::new(f.uplift_amount, line_currency),
        monthly_run_rate: Money::new(f.monthly_run_rate, line_currency),
        confidence: confidence.to_string(),
        confidence_label: confidence_label(f.evidence_kind).to_owned(),
        evidence_kind: f.evidence_kind.as_str().to_owned(),
        price_adjustment_description: f.price_adjustment_description.clone(),
        remediation_window: f.remediation_window.as_str().to_owned(),
        action: action_for(f.remediation_window).to_owned(),
        suppressed,
    }
}

/// Everything one analysis produced. (The time spent is measured and added by the caller
/// that runs the analysis.)
#[derive(Debug, Clone)]
pub struct AnalysisResult {
    /// Headline EST penalty per month, above-threshold subscriptions only.
    pub total_est_leak_monthly: Money,
    /// Monthly total held back by the noise gate. Shown as a footnote, never dropped.
    pub suppressed_monthly: Money,
    pub suppressed_subscription_count: usize,
    /// The noise threshold in force, for the interface to show.
    pub noise_threshold_monthly: Money,
    /// Billing currency of the export.
    pub currency: String,

    /// Every EST line found, ordered by monthly cost, suppressed ones last.
    pub findings: Vec<FindingView>,
    /// Distinct subscriptions behind the headline figure (suppressed ones are counted
    /// separately, above).
    pub reportable_subscription_count: usize,

    pub rows_parsed: u64,
    pub rows_failed: u64,
    pub row_error_count: u64,
    /// Columns in the file this build does not model. Not an error; worth surfacing.
    pub unknown_columns: Vec<String>,
    /// Anything the user should know before trusting the number above.
    pub warnings: Vec<String>,

    /// Build of the analyser these figures came from. See [`ANALYZER_VERSION`].
    pub analyzer_version: String,
}

/// Where an in-flight analysis has got to.
#[derive(Debug, Clone, Copy, PartialEq, Eq, Structural)]
pub enum Phase {
    /// Bytes are being pulled in; no row has been handed over yet.
    Reading,
    /// Streaming rows through the parser and the detector.
    Parsing,
    /// Per-subscription rollup and the noise gate.
    EstDetection,
    /// Building and ordering the payload.
    Finalizing,
}

impl Phase {
    /// The wire name of the phase.
    pub fn as_str(self) -> (r: &'static str)
        ensures
            r@ == (match self {
                Phase::Reading => "READING"@,
                Phase::Parsing => "PARSING"@,
                Phase::EstDetection => "EST_DETECTION"@,
                Phase::Finalizing => "FINALIZING"@,
            }),
    {
        match self {
            Phase::Reading => "READING",
            Phase::Parsing => "PARSING",
            Phase::EstDetection => "EST_DETECTION",
            Phase::Finalizing => "FINALIZING",
        }
    }
}

/// One progress tick. Every field is a fact already known, never an extrapolation.
#[derive(Debug, Clone, Copy, PartialEq, Eq, Structural)]
pub struct Progress {
    /// Source bytes the reader has consumed, never more than the file holds.
    pub bytes_processed: u64,
    pub total_bytes: u64,
    pub rows_parsed: u64,
    /// EST lines matched so far: before the rollup and the noise gate.
    pub est_found: u64,
    pub phase: Phase,
}

fn count_text(n: u64) -> (r: String)
    ensures
        r@ == whole_text(n as nat),
{
    if n == 0 {
        return "0".to_owned();
    }
    let ds = crate::dec::digits_exec(n as u128);
    string_from_chars(&ds)
}

fn join_names(names: &Vec<String>) -> (r: String)
    ensures
        r@ == names_joined(crate::parser::texts(names@)),
{
    let ghost ts = crate::parser::texts(names@);
    let mut out = String::new();
    let mut i: usize = 0;
    proof {
        assert(ts.take(0) =~= Seq::<Seq<char>>::empty());
    }
    while i < names.len()
        invariant
            i <= names.len(),
            ts == crate::parser::texts(names@),
            out@ == names_joined(ts.take(i as int)),
        decreases names.len() - i,
    {
        proof {
            assert(ts.take(i + 1).drop_last() =~= ts.take(i as int));
            assert(ts.take(i + 1).last() == names@[i as int]@);
        }
        if i > 0 {
            out.append(", ");
        }
        out.append(names[i].as_str());
        proof {
            if i == 0 {
                assert(out@ =~= names_joined(ts.take(1)));
            } else {
                assert(out@ =~= names_joined(ts.take(i as int)) + ", "@ + names@[i as int]@);
            }
        }
        i = i + 1;
    }
    proof {
        assert(ts.take(names.len() as int) =~= ts);
    }
    out
}

/// The warning about mixed billing currencies.
pub open spec fn mixed_currency_warning() -> Seq<char> {
    "This export mixes billing currencies. Totals are sums of unconverted amounts and should not be read as a single figure."@
}

/// Everything the user should know before trusting the headline figure, in order: mixed
/// currencies, unreadable rows, unparsed cells, unmodelled columns, absent columns.
pub open spec fn warnings_of(stats: StreamStats, mixed_currency: bool) -> Seq<Seq<char>> {
    (if mixed_currency { seq![mixed_currency_warning()] } else { Seq::empty() })
    + (if stats.rows_failed > 0 {
        seq![whole_text(stats.rows_failed as nat) + " row(s) could not be read at all and are excluded from every figure here."@]
    } else {
        Seq::empty()
    })
    + (if stats.row_error_count > 0 {
        seq![whole_text(stats.row_error_count as nat) + " cell(s) did not parse. Those fields were treated as absent, so the total below may understate the leak."@]
    } else {
        Seq::empty()
    })
    + (if stats.unknown_columns@.len() > 0 {
        seq!["This file has "@ + whole_text(stats.unknown_columns@.len()) + " column(s) this build does not model ("@
            + names_joined(crate::parser::texts(stats.unknown_columns@))
            + "). Nothing was dropped, but a newer schema may carry findings we cannot see yet."@]
    } else {
        Seq::empty()
    })
    + (if stats.missing_columns@.len() > 0 {
        seq![whole_text(stats.missing_columns@.len()) + " optional column(s) are absent from this export. Detection still ran, with less corroboration than usual."@]
    } else {
        Seq::empty()
    })
}

#[verifier::rlimit(30)]
fn warnings(stats: &StreamStats, mixed_currency: bool) -> (r: Vec<String>)
    ensures
        crate::parser::texts(r@) == warnings_of(*stats, mixed_currency),
{
    let mut w: Vec<String> = Vec::new();
    if mixed_currency {
        w.push("This export mixes billing currencies. Totals are sums of unconverted amounts and should not be read as a single figure.".to_owned());
    }
    if stats.rows_failed > 0 {
        let mut m = count_text(stats.rows_failed);
        m.append(" row(s) could not be read at all and are excluded from every figure here.");
        w.push(m);
    }
    if stats.row_error_count > 0 {
        let mut m = count_text(stats.row_error_count);
        m.append(" cell(s) did not parse. Those fields were treated as absent, so the total below may understate the leak.");
        w.push(m);
    }
    if stats.unknown_columns.len() > 0 {
        let mut m = "This file has ".to_owned();
        let n = count_text(stats.unknown_columns.len() as u64);
        m.append(n.as_str());
        m.append(" column(s) this build does not model (");
        let names = join_names(&stats.unknown_columns);
        m.append(names.as_str());
        m.append("). Nothing was dropped, but a newer schema may carry findings we cannot see yet.");
        w.push(m);
    }
    if stats.missing_columns.len() > 0 {
        let mut m = count_text(stats.missing_columns.len() as u64);
        m.append(" optional column(s) are absent from this export. Detection still ran, with less corroboration than usual.");
        w.push(m);
    }
    proof {
        assert(crate::parser::texts(w@) =~= warnings_of(*stats, mixed_currency));
    }
    w
}

/// The subscription of `f` sits under the noise gate.
pub open spec fn is_suppressed(subs: Seq<EstSubscriptionSummary>, f: EstFinding) -> bool {
    exists|j: int| 0 <= j < subs.len() && #[trigger] subs[j].below_noise_threshold && summary_key(subs[j]) == finding_key(f)
}

/// The noise-gate verdict of each finding, inherited from its subscription.
fn suppressed_flags(report: &EstReport) -> (r: Vec<bool>)
    ensures
        r@.len() == report.findings@.len(),
        forall|i: int| 0 <= i < r@.len() ==> r@[i] == is_suppressed(report.subscriptions@, #[trigger] report.findings@[i]),
{
    let mut r: Vec<bool> = Vec::new();
    let mut i: usize = 0;
    while i < report.findings.len()
        invariant
            i <= report.findings.len(),
            r@.len() == i,
            forall|m: int| 0 <= m < i ==> r@[m] == is_suppressed(report.subscriptions@, #[trigger] report.findings@[m]),
        decreases report.findings.len() - i,
    {
        let f = &report.findings[i];
        let mut found = false;
        let mut j: usize = 0;
        while j < report.subscriptions.len()
            invariant
                j <= report.subscriptions.len(),
                *f == report.findings@[i as int],
                found == exists|m: int| 0 <= m < j && #[trigger] report.subscriptions@[m].below_noise_threshold
                    && summary_key(report.subscriptions@[m]) == finding_key(*f),
            decreases report.subscriptions.len() - j,
        {
            let s = &report.subscriptions[j];
            if s.below_noise_threshold && crate::detectors::est::same_key(s, f) {
                found = true;
            }
            proof {
                if found {
                    if s.below_noise_threshold && summary_key(*s) == finding_key(*f) {
                        assert(report.subscriptions@[j as int].below_noise_threshold);
                    }
                }
            }
            j = j + 1;
        }
        r.push(found);
        i = i + 1;
    }
    r
}

/// Finding `a` is listed after finding `b` in the table: unsuppressed lines first, then
/// by monthly run rate, largest first, then by record index.
pub open spec fn listed_after(fs: Seq<EstFinding>, sup: Seq<bool>, a: int, b: int) -> bool {
    ||| (sup[a] && !sup[b])
    ||| (sup[a] == sup[b] && fs[a].monthly_run_rate@.units() < fs[b].monthly_run_rate@.units())
    ||| (sup[a] == sup[b] && fs[a].monthly_run_rate@.units() == fs[b].monthly_run_rate@.units()
        && fs[a].record_index > fs[b].record_index)
}

/// `t` with `x` placed before the first entry listed after it.
pub open spec fn insert_listed(t: Seq<int>, x: int, fs: Seq<EstFinding>, sup: Seq<bool>) -> Seq<int>
    decreases t.len(),
{
    if t.len() == 0 {
        seq![x]
    } else if listed_after(fs, sup, t[0], x) {
        seq![x] + t
    } else {
        seq![t[0]] + insert_listed(t.drop_first(), x, fs, sup)
    }
}

/// The order of the first `n` findings in the table: a stable sort by [`listed_after`].
pub open spec fn table_order(n: int, fs: Seq<EstFinding>, sup: Seq<bool>) -> Seq<int>
    decreases n,
{
    if n <= 0 {
        Seq::empty()
    } else {
        insert_listed(table_order(n - 1, fs, sup), n - 1, fs, sup)
    }
}

proof fn lemma_insert_listed(t: Seq<int>, x: int, fs: Seq<EstFinding>, sup: Seq<bool>, p: int)
    requires
        0 <= p <= t.len(),
        forall|m: int| 0 <= m < p ==> !listed_after(fs, sup, #[trigger] t[m], x),
        p < t.len() ==> listed_after(fs, sup, t[p], x),
    ensures
        insert_listed(t, x, fs, sup) == t.take(p).push(x) + t.skip(p),
    decreases t.len(),
{
    if t.len() == 0 {
        assert(t.take(p).push(x) + t.skip(p) =~= seq![x]);
    } else if p == 0 {
        assert(t.take(0).push(x) + t.skip(0) =~= seq![x] + t);
    } else {
        let u = t.drop_first();
        assert(!listed_after(fs, sup, t[0], x));
        assert forall|m: int| 0 <= m < p - 1 implies !listed_after(fs, sup, #[trigger] u[m], x) by {
            assert(u[m] == t[m + 1]);
        }
        if p - 1 < u.len() {
            assert(u[p - 1] == t[p]);
        }
        lemma_insert_listed(u, x, fs, sup, p - 1);
        assert(seq![t[0]] + (u.take(p - 1).push(x) + u.skip(p - 1)) =~= t.take(p).push(x) + t.skip(p));
    }
}

/// The table order of all findings, as positions.
fn order_findings(fs: &Vec<EstFinding>, sup: &Vec<bool>) -> (order: Vec<usize>)
    requires
        sup@.len() == fs@.len(),
    ensures
        order@.map_values(|k: usize| k as int) == table_order(fs@.len() as int, fs@, sup@),
        forall|i: int| 0 <= i < order@.len() ==> order@[i] < fs@.len(),
{
    let mut order: Vec<usize> = Vec::new();
    let mut i: usize = 0;
    while i < fs.len()
        invariant
            i <= fs.len(),
            sup@.len() == fs@.len(),
            order@.map_values(|k: usize| k as int) == table_order(i as int, fs@, sup@),
            forall|m: int| 0 <= m < order@.len() ==> order@[m] < i,
        decreases fs.len() - i,
    {
        let ghost t = order@.map_values(|k: usize| k as int);
        let mut p: usize = 0;
        while p < order.len() && !finding_listed_after(fs, sup, order[p], i)
            invariant
                p <= order.len(),
                i < fs.len(),
                sup@.len() == fs@.len(),
                t == order@.map_values(|k: usize| k as int),
                forall|m: int| 0 <= m < order@.len() ==> order@[m] < i,
                forall|m: int| 0 <= m < p ==> !listed_after(fs@, sup@, #[trigger] t[m], i as int),
            decreases order.len() - p,
        {
            p = p + 1;
        }
        proof {
            lemma_insert_listed(t, i as int, fs@, sup@, p as int);
        }
        order.insert(p, i);
        proof {
            assert(order@.map_values(|k: usize| k as int) =~= t.take(p as int).push(i as int) + t.skip(p as int));
        }
        i = i + 1;
    }
    order
}

/// Whether finding `a` is listed after finding `b` (see [`listed_after`]).
fn finding_listed_after(fs: &Vec<EstFinding>, sup: &Vec<bool>, a: usize, b: usize) -> (r: bool)
    requires
        a < fs@.len(),
        b < fs@.len(),
        sup@.len() == fs@.len(),
    ensures
        r == listed_after(fs@, sup@, a as int, b as int),
{
    let fa = &fs[a];
    let fb = &fs[b];
    (sup[a] && !sup[b])
        || (sup[a] == sup[b] && fa.monthly_run_rate.lt(&fb.monthly_run_rate))
        || (sup[a] == sup[b] && fa.monthly_run_rate.value_eq(&fb.monthly_run_rate) && fa.record_index > fb.record_index)
}

/// The noise-gate verdict of each finding of `fs` (see [`is_suppressed`]).
pub open spec fn flags_of(subs: Seq<EstSubscriptionSummary>, fs: Seq<EstFinding>) -> Seq<bool> {
    Seq::new(fs.len(), |k: int| is_suppressed(subs, fs[k]))
}

/// `r` is the payload for `report`, read from a stream with statistics `stats`, in billing
/// currency `currency`, `mixed_currency` telling whether other currencies appeared.
pub open spec fn payload_of(r: AnalysisResult, report: EstReport, stats: StreamStats, currency: Seq<char>, mixed_currency: bool) -> bool {
    let fs = report.findings@;
    let sup = flags_of(report.subscriptions@, fs);
    let order = table_order(fs.len() as int, fs, sup);
    &&& r.total_est_leak_monthly.value@ == exact_text(report.total_monthly_run_rate@)
    &&& r.total_est_leak_monthly.display@ == money_display(report.total_monthly_run_rate@, currency)
    &&& r.suppressed_monthly.value@ == exact_text(report.suppressed_monthly_run_rate@)
    &&& r.suppressed_monthly.display@ == money_display(report.suppressed_monthly_run_rate@, currency)
    &&& r.suppressed_subscription_count == report.suppressed_subscription_count
    &&& r.noise_threshold_monthly.value@ == exact_text(report.noise_threshold_monthly@)
    &&& r.noise_threshold_monthly.display@ == money_display(report.noise_threshold_monthly@, currency)
    &&& r.currency@ == currency
    &&& r.findings@.len() == fs.len()
    &&& forall|i: int| 0 <= i < r.findings@.len() ==>
        #[trigger] shows(r.findings@[i], fs[order[i]], currency, sup[order[i]])
    &&& r.reportable_subscription_count == report.subscriptions@.filter(|s: EstSubscriptionSummary| !s.below_noise_threshold).len()
    &&& r.rows_parsed == stats.rows_parsed
    &&& r.rows_failed == stats.rows_failed
    &&& r.row_error_count == stats.row_error_count
    &&& crate::parser::texts(r.unknown_columns@) == crate::parser::texts(stats.unknown_columns@)
    &&& crate::parser::texts(r.warnings@) == warnings_of(stats, mixed_currency)
    &&& r.analyzer_version@ == ANALYZER_VERSION@
}

/// Build the payload from the detector's report and the reader's statistics.
#[verifier::rlimit(30)]
pub fn build(report: EstReport, stats: StreamStats, currency: String, mixed_currency: bool) -> (r: AnalysisResult)
    ensures
        payload_of(r, report, stats, currency@, mixed_currency),
{
    let ghost fs = report.findings@;
    let sup = suppressed_flags(&report);
    proof {
        assert(sup@ =~= flags_of(report.subscriptions@, fs));
    }
    let order = order_findings(&report.findings, &sup);
    let ghost ord = table_order(fs.len() as int, fs, sup@);
    proof {
        law_the_table_lists_every_finding_once_in_order(fs.len() as int, fs, sup@);
    }
    let mut findings: Vec<FindingView> = Vec::new();
    let mut k: usize = 0;
    while k < order.len()
        invariant
            k <= order.len(),
            order@.len() == fs.len(),
            fs == report.findings@,
            sup@.len() == fs.len(),
            ord == table_order(fs.len() as int, fs, sup@),
            order@.map_values(|x: usize| x as int) == ord,
            forall|i: int| 0 <= i < order@.len() ==> order@[i] < fs.len(),
            findings@.len() == k,
            forall|i: int| 0 <= i < k ==> #[trigger] shows(findings@[i], fs[ord[i]], currency@, sup@[ord[i]]),
        decreases order.len() - k,
    {
        let j = order[k];
        proof {
            assert(ord[k as int] == j as int);
        }
        let v = view(&report.findings[j], currency.as_str(), sup[j]);
        findings.push(v);
        k = k + 1;
    }
    let reportable = report.reportable();
    let reportable_subscription_count = reportable.len();
    proof {
        assert(reportable@.map_values(|x: &EstSubscriptionSummary| *x).len() == reportable@.len());
    }
    let warnings = warnings(&stats, mixed_currency);
    AnalysisResult {
        total_est_leak_monthly: Money::new(report.total_monthly_run_rate, currency.as_str()),
        suppressed_monthly: Money::new(report.suppressed_monthly_run_rate, currency.as_str()),
        suppressed_subscription_count: report.suppressed_subscription_count,
        noise_threshold_monthly: Money::new(report.noise_threshold_monthly, currency.as_str()),
        currency,
        findings,
        reportable_subscription_count,
        rows_parsed: stats.rows_parsed,
        rows_failed: stats.rows_failed,
        row_error_count: stats.row_error_count,
        unknown_columns: stats.unknown_columns,
        warnings,
        analyzer_version: ANALYZER_VERSION.to_owned(),
    }
}

/// An analysis in progress: the detector, the billing currency seen so far, and the row
/// count at which the next progress tick is due.
pub struct Analysis {
    est: EstDetector,
    currency: String,
    mixed_currency: bool,
    rows_seen: u64,
    next_report: u64,
    row_interval: u64,
    total_bytes: u64,
}

/// The state of an analysis, as plain values.
pub struct AnalysisView {
    pub est: EstDetectorView,
    pub currency: Seq<char>,
    pub mixed_currency: bool,
    pub rows_seen: u64,
    pub next_report: u64,
    pub row_interval: u64,
    pub total_bytes: u64,
}

impl View for Analysis {
    type V = AnalysisView;

    closed spec fn view(&self) -> AnalysisView {
        AnalysisView {
            est: self.est@,
            currency: self.currency@,
            mixed_currency: self.mixed_currency,
            rows_seen: self.rows_seen,
            next_report: self.next_report,
            row_interval: self.row_interval,
            total_bytes: self.total_bytes,
        }
    }
}

/// A progress tick: the consumed bytes capped at the file size, so a bar never shows more
/// than 100%.
pub open spec fn tick_of(phase: Phase, rows: u64, est_found: nat, consumed: u64, total_bytes: u64, p: Progress) -> bool {
    &&& p.bytes_processed == (if consumed < total_bytes { consumed } else { total_bytes })
    &&& p.total_bytes == total_bytes
    &&& p.rows_parsed == rows
    &&& p.est_found == est_found
    &&& p.phase == phase
}

/// The billing currency after a row in `row_currency`: the first non-empty currency is
/// kept, and any other non-empty one marks the export as mixed.
pub open spec fn currency_after(currency: Seq<char>, mixed: bool, row_currency: Seq<char>) -> (Seq<char>, bool) {
    if row_currency.len() == 0 {
        (currency, mixed)
    } else if currency.len() == 0 {
        (row_currency, mixed)
    } else if currency != row_currency {
        (currency, true)
    } else {
        (currency, mixed)
    }
}

/// In the payload's findings table, unsuppressed lines come before suppressed ones, and
/// among lines with the same verdict an earlier one costs at least as much a month as any
/// later one; each row shows its finding.
pub proof fn law_the_table_ranks_by_run_rate(
    r: AnalysisResult,
    report: EstReport,
    stats: StreamStats,
    currency: Seq<char>,
    mixed_currency: bool,
    i: int,
    j: int,
)
    requires
        payload_of(r, report, stats, currency, mixed_currency),
        0 <= i < j < r.findings@.len(),
    ensures
        ({
            let fs = report.findings@;
            let sup = flags_of(report.subscriptions@, fs);
            let order = table_order(fs.len() as int, fs, sup);
            &&& shows(r.findings@[i], fs[order[i]], currency, sup[order[i]])
            &&& shows(r.findings@[j], fs[order[j]], currency, sup[order[j]])
            &&& !sup[order[i]] || sup[order[j]]
            &&& sup[order[i]] == sup[order[j]] ==> fs[order[i]].monthly_run_rate@.units() >= fs[order[j]].monthly_run_rate@.units()
        }),
{
    let fs = report.findings@;
    let sup = flags_of(report.subscriptions@, fs);
    law_the_table_lists_every_finding_once_in_order(fs.len() as int, fs, sup);
    let order = table_order(fs.len() as int, fs, sup);
    assert(!listed_after(fs, sup, order[i], order[j]));
}

/// How the reporting schedule moves over one row: the row count goes up by one; a tick
/// is due when the interval is not 0 and the count reaches the next reporting point, which
/// then moves one interval past the count (saturating at `u64::MAX`).
pub open spec fn schedule_step(o: AnalysisView, n: AnalysisView, ticked: bool) -> bool {
    &&& n.rows_seen == o.rows_seen + 1
    &&& n.row_interval == o.row_interval
    &&& ticked == (o.row_interval > 0 && n.rows_seen >= o.next_report)
    &&& n.next_report == (if ticked {
        if n.rows_seen + o.row_interval <= u64::MAX { (n.rows_seen + o.row_interval) as u64 } else { u64::MAX }
    } else {
        o.next_report
    })
}

/// How many of the steps ticked.
pub open spec fn tick_count(ticks: Seq<bool>) -> nat
    decreases ticks.len(),
{
    if ticks.len() == 0 {
        0
    } else {
        tick_count(ticks.drop_last()) + if ticks.last() { 1nat } else { 0nat }
    }
}

proof fn lemma_div_step(r: int, i: int)
    requires
        r >= 0,
        i > 0,
    ensures
        r + 1 >= (r / i + 1) * i ==> (r + 1) / i == r / i + 1 && r + 1 == (r / i + 1) * i,
        r + 1 < (r / i + 1) * i ==> (r + 1) / i == r / i,
{
    vstd::arithmetic::div_mod::lemma_fundamental_div_mod(r, i);
    vstd::arithmetic::div_mod::lemma_mod_pos_bound(r, i);
    let q = r / i;
    let m = r % i;
    assert(i * q == q * i) by (nonlinear_arith);
    assert((q + 1) * i == q * i + i) by (nonlinear_arith);
    if m + 1 == i {
        vstd::arithmetic::div_mod::lemma_fundamental_div_mod_converse(r + 1, i, q + 1, 0);
    } else {
        vstd::arithmetic::div_mod::lemma_fundamental_div_mod_converse(r + 1, i, q, m + 1);
    }
}

/// With a non-zero interval and no saturation, `n` rows bring exactly `n / interval`
/// progress ticks, and the next one is due at the next multiple of the interval.
pub proof fn law_ticks_every_interval(states: Seq<AnalysisView>, ticks: Seq<bool>)
    requires
        states.len() == ticks.len() + 1,
        states[0].rows_seen == 0,
        states[0].row_interval > 0,
        states[0].next_report == states[0].row_interval,
        forall|k: int| 0 <= k < ticks.len() ==> #[trigger] schedule_step(states[k], states[k + 1], ticks[k]),
        states.last().rows_seen + states[0].row_interval <= u64::MAX,
    ensures
        tick_count(ticks) == states.last().rows_seen as int / states[0].row_interval as int,
        states.last().next_report == (states.last().rows_seen as int / states[0].row_interval as int + 1) * states[0].row_interval,
    decreases ticks.len(),
{
    let i = states[0].row_interval as int;
    if ticks.len() > 0 {
        let n = ticks.len() - 1;
        let ps = states.take(n + 1);
        let pt = ticks.take(n);
        assert forall|k: int| 0 <= k < pt.len() implies #[trigger] schedule_step(ps[k], ps[k + 1], pt[k]) by {
            assert(schedule_step(states[k], states[k + 1], ticks[k]));
        }
        assert(schedule_step(states[n], states[n + 1], ticks[n]));
        assert(ps.last() == states[n]);
        assert(forall|k: int| 0 <= k <= n ==> states[k].row_interval == i) by {
            assert forall|k: int| 0 <= k <= n implies states[k].row_interval == i by {
                lemma_interval_kept(states, ticks, k);
            }
        }
        law_ticks_every_interval(ps, pt);
        assert(ticks.drop_last() =~= pt);
        lemma_div_step(states[n].rows_seen as int, i);
        let q = states[n].rows_seen as int / i;
        assert((q + 1 + 1) * i == (q + 1) * i + i) by (nonlinear_arith);
        assert(states.last() == states[n + 1]);
        let o = states[n];
        let nn = states[n + 1];
        assert(o.next_report == (q + 1) * i);
        assert(o.row_interval == i);
        assert(nn.rows_seen == o.rows_seen + 1);
        if ticks[n] {
            assert(nn.rows_seen == (q + 1) * i);
            assert(nn.next_report == nn.rows_seen + i);
            assert(nn.rows_seen as int / i == q + 1);
            assert(nn.next_report == (nn.rows_seen as int / i + 1) * i);
        } else {
            assert(nn.rows_seen as int / i == q);
            assert(nn.next_report == (nn.rows_seen as int / i + 1) * i);
        }
    } else {
        assert(states.last() == states[0]);
        assert(0int / i == 0) by (nonlinear_arith)
            requires
                i > 0;
        assert(states.last().next_report == (states.last().rows_seen as int / i + 1) * i);
    }
}

proof fn lemma_interval_kept(states: Seq<AnalysisView>, ticks: Seq<bool>, k: int)
    requires
        states.len() == ticks.len() + 1,
        forall|m: int| 0 <= m < ticks.len() ==> #[trigger] schedule_step(states[m], states[m + 1], ticks[m]),
        0 <= k < states.len(),
    ensures
        states[k].row_interval == states[0].row_interval,
        states[k].rows_seen == states[0].rows_seen + k,
    decreases k,
{
    if k > 0 {
        lemma_interval_kept(states, ticks, k - 1);
        assert(schedule_step(states[k - 1], states[(k - 1) + 1], ticks[k - 1]));
    }
}

impl Analysis {
    fn tick(&self, phase: Phase, rows: u64, est_found: usize, consumed: u64) -> (p: Progress)
        ensures
            tick_of(phase, rows, est_found as nat, consumed, self.total_bytes, p),
    {
        // The last buffered read can run past the last row; never report more than the file.
        let bytes_processed = if consumed < self.total_bytes { consumed } else { self.total_bytes };
        Progress { bytes_processed, total_bytes: self.total_bytes, rows_parsed: rows, est_found: est_found as u64, phase }
    }

    /// Start analysing a file of `total_bytes` bytes, asking for a progress tick at most
    /// every `row_interval` rows (0: at phase changes only). Returns the `READING` tick, or
    /// the message for an empty file.
    pub fn start(total_bytes: u64, row_interval: u64) -> (r: Result<(Analysis, Progress), String>)
        ensures
            r is Err <==> total_bytes == 0,
            r matches Err(e) ==> e@ == "That file is empty."@,
            r matches Ok(ok) ==> {
                &&& policy_2026_05(ok.0@.est.policy)
                &&& ok.0@.est.findings.len() == 0
                &&& ok.0@.currency.len() == 0
                &&& !ok.0@.mixed_currency
                &&& ok.0@.rows_seen == 0
                &&& ok.0@.next_report == row_interval
                &&& ok.0@.row_interval == row_interval
                &&& ok.0@.total_bytes == total_bytes
                &&& tick_of(Phase::Reading, 0, 0, 0, total_bytes, ok.1)
            },
    {
        if total_bytes == 0 {
            return Err(String::from_str("That file is empty."));
        }
        let a = Analysis {
            est: EstDetector::new(),
            currency: String::new(),
            mixed_currency: false,
            rows_seen: 0,
            next_report: row_interval,
            row_interval,
            total_bytes,
        };
        let p = a.tick(Phase::Reading, 0, 0, 0);
        Ok((a, p))
    }

    /// Rows seen so far.
    pub fn rows_seen(&self) -> (n: u64)
        ensures
            n == self@.rows_seen,
    {
        self.rows_seen
    }

    /// Take in one parsed row, `consumed` source bytes having been read. Tracks the
    /// billing currency, runs the detector, and returns a `PARSING` tick when one is due:
    /// the interval is not 0 and the row count reached the next reporting point, which then
    /// moves one interval on.
    pub fn on_row(&mut self, row: &ReconRow, consumed: u64) -> (p: Option<Progress>)
        requires
            old(self)@.rows_seen < u64::MAX,
        ensures
            final(self)@.est.policy == old(self)@.est.policy,
            observed(old(self)@.est.policy, old(self)@.est.findings, *row, final(self)@.est.findings),
            (final(self)@.currency, final(self)@.mixed_currency)
                == currency_after(old(self)@.currency, old(self)@.mixed_currency, row.currency@),
            final(self)@.rows_seen == old(self)@.rows_seen + 1,
            final(self)@.row_interval == old(self)@.row_interval,
            final(self)@.total_bytes == old(self)@.total_bytes,
            (old(self)@.row_interval > 0 && final(self)@.rows_seen >= old(self)@.next_report) ==> {
                &&& p matches Some(t)
                &&& tick_of(Phase::Parsing, final(self)@.rows_seen, final(self)@.est.findings.len(), consumed, old(self)@.total_bytes, t)
                &&& final(self)@.next_report == (if final(self)@.rows_seen + old(self)@.row_interval <= u64::MAX {
                    (final(self)@.rows_seen + old(self)@.row_interval) as u64
                } else {
                    u64::MAX
                })
            },
            !(old(self)@.row_interval > 0 && final(self)@.rows_seen >= old(self)@.next_report) ==>
                (p is None && final(self)@.next_report == old(self)@.next_report),
            schedule_step(old(self)@, final(self)@, p is Some),
    {
        if !row.currency.as_str().is_empty() {
            if self.currency.as_str().is_empty() {
                self.currency = row.currency.clone();
            } else if !crate::detectors::est::text_equal(self.currency.as_str(), row.currency.as_str()) {
                self.mixed_currency = true;
            }
        }
        self.est.observe(row);
        self.rows_seen = self.rows_seen + 1;
        if self.row_interval > 0 && self.rows_seen >= self.next_report {
            self.next_report = self.rows_seen.saturating_add(self.row_interval);
            let n = self.est.finding_count();
            Some(self.tick(Phase::Parsing, self.rows_seen, n, consumed))
        } else {
            None
        }
    }

    /// The stream has ended with statistics `stats`, `consumed` source bytes read. Returns
    /// the `EST_DETECTION` tick, the `FINALIZING` tick and the payload.
    pub fn finish(self, stats: StreamStats, consumed: u64) -> (r: (Progress, Progress, AnalysisResult))
        ensures
            tick_of(Phase::EstDetection, stats.rows_parsed, self@.est.findings.len(), consumed, self@.total_bytes, r.0),
            tick_of(Phase::Finalizing, stats.rows_parsed, self@.est.findings.len(), consumed, self@.total_bytes, r.1),
            exists|report: EstReport| #[trigger] report_of(self@.est, report)
                && payload_of(r.2, report, stats, self@.currency, self@.mixed_currency),
    {
        let n = self.est.finding_count();
        let t1 = self.tick(Phase::EstDetection, stats.rows_parsed, n, consumed);
        let total_bytes = self.total_bytes;
        let rows = stats.rows_parsed;
        let report = self.est.finish();
        let m = report.findings.len();
        let t2 = Progress {
            bytes_processed: if consumed < total_bytes { consumed } else { total_bytes },
            total_bytes,
            rows_parsed: rows,
            est_found: m as u64,
            phase: Phase::Finalizing,
        };
        let ghost rep = report;
        let result = build(report, stats, self.currency, self.mixed_currency);
        proof {
            assert(report_of(self@.est, rep));
        }
        (t1, t2, result)
    }
}

/// Where `x` goes in `t`: before the first entry listed after it.
spec fn first_after(t: Seq<int>, x: int, fs: Seq<EstFinding>, sup: Seq<bool>) -> int
    decreases t.len(),
{
    if t.len() == 0 || listed_after(fs, sup, t[0], x) {
        0
    } else {
        1 + first_after(t.drop_first(), x, fs, sup)
    }
}

proof fn lemma_first_after(t: Seq<int>, x: int, fs: Seq<EstFinding>, sup: Seq<bool>)
    ensures
        0 <= first_after(t, x, fs, sup) <= t.len(),
        forall|m: int| 0 <= m < first_after(t, x, fs, sup) ==> !listed_after(fs, sup, #[trigger] t[m], x),
        first_after(t, x, fs, sup) < t.len() ==> listed_after(fs, sup, t[first_after(t, x, fs, sup)], x),
    decreases t.len(),
{
    if t.len() > 0 && !listed_after(fs, sup, t[0], x) {
        let u = t.drop_first();
        lemma_first_after(u, x, fs, sup);
        assert forall|m: int| 0 <= m < first_after(t, x, fs, sup) implies !listed_after(fs, sup, #[trigger] t[m], x) by {
            if m > 0 {
                assert(t[m] == u[m - 1]);
            }
        }
        let p = first_after(t, x, fs, sup);
        if p < t.len() {
            assert(t[p] == u[p - 1]);
        }
    }
}

/// Listing order is a total preorder: after is transitive and asymmetric, and an entry
/// that is not after `c` but is after `x` puts `c` after `x`.
proof fn lemma_listed_after(fs: Seq<EstFinding>, sup: Seq<bool>, a: int, b: int, c: int)
    ensures
        listed_after(fs, sup, a, b) && listed_after(fs, sup, b, c) ==> listed_after(fs, sup, a, c),
        listed_after(fs, sup, a, b) ==> !listed_after(fs, sup, b, a),
        listed_after(fs, sup, b, a) && !listed_after(fs, sup, b, c) ==> listed_after(fs, sup, c, a),
{
}

/// Entries in listing order.
pub open spec fn listed_in_order(t: Seq<int>, fs: Seq<EstFinding>, sup: Seq<bool>) -> bool {
    forall|i: int, j: int| 0 <= i < j < t.len() ==> !listed_after(fs, sup, #[trigger] t[i], #[trigger] t[j])
}

/// The findings table lists every finding exactly once, unsuppressed lines before
/// suppressed ones, each group by monthly run rate (largest first), then by record index.
pub proof fn law_the_table_lists_every_finding_once_in_order(n: int, fs: Seq<EstFinding>, sup: Seq<bool>)
    requires
        n >= 0,
    ensures
        table_order(n, fs, sup).len() == n,
        forall|i: int| 0 <= i < n ==> 0 <= #[trigger] table_order(n, fs, sup)[i] < n,
        forall|i: int, j: int| 0 <= i < j < n ==> #[trigger] table_order(n, fs, sup)[i] != #[trigger] table_order(n, fs, sup)[j],
        listed_in_order(table_order(n, fs, sup), fs, sup),
    decreases n,
{
    if n > 0 {
        let t = table_order(n - 1, fs, sup);
        let x = n - 1;
        law_the_table_lists_every_finding_once_in_order(n - 1, fs, sup);
        lemma_first_after(t, x, fs, sup);
        let p = first_after(t, x, fs, sup);
        lemma_insert_listed(t, x, fs, sup, p);
        let r = t.take(p).push(x) + t.skip(p);
        assert(table_order(n, fs, sup) == r);
        assert forall|i: int| 0 <= i < n implies 0 <= #[trigger] r[i] < n by {
            if i < p {
                assert(r[i] == t[i]);
            } else if i > p {
                assert(r[i] == t[i - 1]);
            }
        }
        assert forall|i: int, j: int| 0 <= i < j < n implies #[trigger] r[i] != #[trigger] r[j] by {
            if i < p && j < p {
                assert(r[i] == t[i] && r[j] == t[j]);
            } else if i < p && j == p {
                assert(r[i] == t[i]);
            } else if i < p {
                assert(r[i] == t[i] && r[j] == t[j - 1]);
            } else if i == p {
                assert(r[j] == t[j - 1]);
            } else {
                assert(r[i] == t[i - 1] && r[j] == t[j - 1]);
            }
        }
        assert forall|i: int, j: int| 0 <= i < j < r.len() implies !listed_after(fs, sup, #[trigger] r[i], #[trigger] r[j]) by {
            if j < p {
                assert(r[i] == t[i] && r[j] == t[j]);
            } else if j == p {
                assert(r[i] == t[i] && r[j] == x);
            } else if i < p {
                assert(r[i] == t[i] && r[j] == t[j - 1]);
                // t[i] is not after x, x is not after t[p] <= t[j-1].
                lemma_listed_after(fs, sup, t[p], x, t[j - 1]);
                lemma_listed_after(fs, sup, t[i], x, t[j - 1]);
                if listed_after(fs, sup, t[i], t[j - 1]) {
                    lemma_listed_after(fs, sup, t[j - 1], x, t[i]);
                    lemma_listed_after(fs, sup, t[i], t[j - 1], x);
                }
            } else if i == p {
                assert(r[i] == x && r[j] == t[j - 1]);
                if j - 1 > p {
                    lemma_listed_after(fs, sup, t[p], x, t[j - 1]);
                }
                lemma_listed_after(fs, sup, t[j - 1], x, x);
            } else {
                assert(r[i] == t[i - 1] && r[j] == t[j - 1]);
            }
        }
    }
}

} // verus!
