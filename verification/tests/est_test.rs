use recon_core::detectors::est::{EstDetector, EstEvidenceKind, EstFinding, EstPolicy};
use recon_core::{BillingCycle, BillingTerm, ChargeType, Date, Dec, ReconRow, RemediationWindow, TermDuration};

fn d(num: i64, scale: u32) -> Dec {
    Dec::new(num, scale)
}

fn row(effective: Dec, list: Dec, qty: Dec, desc: &str) -> ReconRow {
    ReconRow {
        record_index: 0,
        customer_id: "C1".into(),
        subscription_id: "S1".into(),
        charge_type: ChargeType::CycleCharge,
        charge_start_date: Date::from_ymd_opt(2026, 7, 1),
        charge_end_date: Date::from_ymd_opt(2026, 7, 31),
        term: BillingTerm { duration: TermDuration::Monthly, cycle: BillingCycle::Monthly },
        unit_price: Some(list),
        effective_unit_price: Some(effective),
        billable_quantity: Some(qty),
        price_adjustment_description: desc.into(),
        ..Default::default()
    }
}

fn single(r: &ReconRow) -> Option<EstFinding> {
    let mut det = EstDetector::new();
    det.observe(r);
    det.finish().findings.into_iter().next()
}

#[test]
fn declared_and_priced_is_the_strong_case() {
    let f = single(&row(d(3690, 2), d(3000, 2), d(10, 0), "Extended Service Terms 23% Fee Applied"))
        .expect("finding");
    assert_eq!(f.rate, d(23, 2));
    assert_eq!(f.evidence_kind, EstEvidenceKind::DeclaredAndPriced);
    assert_eq!(f.confidence, d(100, 2));
    assert_eq!(f.uplift_amount, d(6900, 2));
    assert_eq!(f.monthly_run_rate, d(6900, 2));
    assert_eq!(f.remediation_window, RemediationWindow::Now);
}

#[test]
fn price_ratio_alone_still_fires_at_lower_confidence() {
    let f = single(&row(d(1845, 2), d(1500, 2), d(4, 0), "")).expect("finding");
    assert_eq!(f.rate, d(23, 2));
    assert_eq!(f.evidence_kind, EstEvidenceKind::PriceRatio);
    assert_eq!(f.confidence, d(75, 2));
    assert_eq!(f.uplift_amount, d(1380, 2));
}

#[test]
fn declared_without_a_list_price_derives_the_base() {
    let mut r = row(d(3690, 2), d(0, 0), d(10, 0), "Extended Service Terms 23% Fee Applied");
    r.unit_price = None;
    let f = single(&r).expect("finding");
    assert_eq!(f.evidence_kind, EstEvidenceKind::DeclaredNotCorroborated);
    assert_eq!(f.base_unit_price, d(30, 0));
    assert_eq!(f.uplift_amount, d(6900, 2));
}

#[test]
fn ordinary_lines_do_not_fire() {
    assert!(single(&row(d(22, 0), d(22, 0), d(25, 0), "")).is_none());
    // An expired promo is a price jump, but not a 3%/23% one.
    assert!(single(&row(d(14, 0), d(10, 0), d(30, 0), "")).is_none());
    // A discount is not an uplift.
    assert!(single(&row(d(10, 0), d(14, 0), d(30, 0), "")).is_none());
}

#[test]
fn charges_before_the_policy_date_are_out_of_scope() {
    let mut r = row(d(412, 2), d(400, 2), d(50, 0), "Extended Service Terms 3% Fee Applied");
    r.charge_start_date = Date::from_ymd_opt(2026, 4, 1);
    r.charge_end_date = Date::from_ymd_opt(2026, 4, 30);
    assert!(single(&r).is_none());
}

#[test]
fn credit_lines_net_against_the_penalty() {
    let mut charge = row(d(412, 2), d(400, 2), d(50, 0), "Extended Service Terms 3% Fee");
    charge.record_index = 0;
    let mut credit = row(d(412, 2), d(400, 2), d(-50, 0), "Extended Service Terms 3% Fee");
    credit.record_index = 1;
    credit.charge_type = ChargeType::RemoveQuantity;

    let mut det = EstDetector::new();
    det.observe(&charge);
    det.observe(&credit);
    let report = det.finish();

    assert_eq!(report.findings.len(), 2);
    assert_eq!(report.subscriptions.len(), 1);
    assert_eq!(report.subscriptions[0].monthly_run_rate, Dec::zero());
    // Netting to zero puts it under the noise threshold: the partner paid the penalty and got it back.
    assert!(report.subscriptions[0].below_noise_threshold);
    assert_eq!(report.total_monthly_run_rate, Dec::zero());
}

#[test]
fn the_noise_gate_suppresses_but_never_deletes() {
    let mut det = EstDetector::new();
    det.observe(&row(d(206, 2), d(200, 2), d(1, 0), "Extended Service Terms 3% Fee Applied"));
    let report = det.finish();

    assert_eq!(report.findings.len(), 1, "the finding is still there");
    assert_eq!(report.findings[0].uplift_amount, d(6, 2));
    assert_eq!(report.total_monthly_run_rate, Dec::zero(), "but not in the headline");
    assert_eq!(report.suppressed_subscription_count, 1);
    assert_eq!(report.suppressed_monthly_run_rate, d(6, 2));
    assert_eq!(report.reportable().len(), 0);
}

#[test]
fn a_partial_period_is_scaled_to_a_month() {
    let mut r = row(d(412, 2), d(400, 2), d(50, 0), "Extended Service Terms 3% Fee");
    // Ten days only.
    r.charge_end_date = Date::from_ymd_opt(2026, 7, 10);
    let f = single(&r).expect("finding");
    assert_eq!(f.uplift_amount, d(600, 2));
    // 6.00 / 10 days * 30.436875 days
    assert_eq!(f.monthly_run_rate.round_dp(4), d(182621, 4));
}

#[test]
fn the_policy_table_is_keyed_by_date() {
    assert!(EstPolicy::for_date(Date::from_ymd_opt(2026, 5, 3).unwrap()).is_none());
    assert!(EstPolicy::for_date(Date::from_ymd_opt(2026, 5, 4).unwrap()).is_some());
    assert_eq!(EstPolicy::current().rates.len(), 2);
}

#[test]
fn summaries_collapse_lines_and_rank_by_cost() {
    let mut det = EstDetector::new();
    // Two lines of one subscription, a cheaper subscription, and a tie broken by key.
    let mut a1 = row(d(412, 2), d(400, 2), d(50, 0), "Extended Service Terms 3% Fee");
    a1.record_index = 3;
    let mut a2 = row(d(412, 2), d(400, 2), d(25, 0), "");
    a2.record_index = 7;
    a2.term = BillingTerm { duration: TermDuration::Annual, cycle: BillingCycle::Monthly };
    let mut b = row(d(1845, 2), d(1500, 2), d(4, 0), "");
    b.customer_id = "C0".into();
    b.subscription_id = "S9".into();
    b.record_index = 5;
    let mut c = row(d(1845, 2), d(1500, 2), d(4, 0), "");
    c.customer_id = "C0".into();
    c.subscription_id = "S2".into();
    c.record_index = 6;
    for r in [&a1, &b, &a2, &c] {
        det.observe(r);
    }
    assert_eq!(det.finding_count(), 4);
    let report = det.finish();
    assert_eq!(report.subscriptions.len(), 3);
    let first = &report.subscriptions[0];
    assert_eq!((first.customer_id.as_str(), first.subscription_id.as_str()), ("C0", "S2"));
    let second = &report.subscriptions[1];
    assert_eq!((second.customer_id.as_str(), second.subscription_id.as_str()), ("C0", "S9"));
    let a = &report.subscriptions[2];
    assert_eq!(a.line_count, 2);
    assert_eq!(a.record_indices, vec![3, 7]);
    assert_eq!(a.uplift_amount, d(900, 2));
    // The ratio-only line lowers the confidence; the annual line makes it wait for renewal.
    assert_eq!(a.confidence, d(75, 2));
    assert_eq!(a.remediation_window, RemediationWindow::AtRenewal);
    // 13.80 + 13.80 + 9.00
    assert_eq!(report.total_monthly_run_rate, d(3660, 2));
    assert_eq!(report.total_uplift_amount, d(3660, 2));
    assert_eq!(report.suppressed_subscription_count, 0);
    assert_eq!(report.noise_threshold_monthly, d(5, 0));
}

#[test]
fn totals_add_exactly_at_the_larger_scale() {
    let mut det = EstDetector::new();
    let mut a = row(d(1845, 2), d(1500, 2), d(4, 0), "");
    a.subscription_id = "S1".into();
    let mut b = row(d(412, 2), d(400, 2), d(625, 1), "");
    b.subscription_id = "S2".into();
    det.observe(&a);
    det.observe(&b);
    let report = det.finish();
    // 13.80 + 7.500, kept at three places
    assert_eq!(report.total_uplift_amount, d(21300, 3));
    assert_eq!(report.total_monthly_run_rate, d(21300, 3));
    assert_eq!(report.suppressed_subscription_count, 0);
}

/// The four EST lines of the sample export, as its notes describe them.
fn sample_lines() -> Vec<ReconRow> {
    // S2: Exchange Online P1, 4.00 -> 4.12 over 50 seats.
    let mut s2 = row(d(412, 2), d(400, 2), d(50, 0), "Extended Service Terms 3% Fee Applied");
    s2.record_index = 1;
    s2.subscription_id = "5c2d9e10-0000-4000-8000-000000000002".into();
    s2.sku_name = "Exchange Online (Plan 1)".into();
    // S3: Project Plan 3 at 30.90 against a `UnitPrice` of 25.00, the pre-EST annual rate.
    let mut s3 = row(d(3090, 2), d(2500, 2), d(10, 0), "Extended Service Terms 3% Fee Applied");
    s3.record_index = 2;
    s3.customer_id = "C3".into();
    s3.customer_name = "Fabrikam, Inc.".into();
    s3.subscription_id = "5c2d9e10-0000-4000-8000-000000000003".into();
    s3.sku_name = "Project Plan 3".into();
    // S10: no description, 15.00 -> 15.45 over 40 seats.
    let mut s10 = row(d(1545, 2), d(1500, 2), d(40, 0), "");
    s10.record_index = 10;
    s10.subscription_id = "5c2d9e10-0000-4000-8000-000000000010".into();
    // S11: 0.06 a month, under the noise gate.
    let mut s11 = row(d(206, 2), d(200, 2), d(1, 0), "Extended Service Terms 3% Fee Applied");
    s11.record_index = 11;
    s11.subscription_id = "5c2d9e10-0000-4000-8000-000000000011".into();
    vec![s2, s3, s10, s11]
}

fn sample_report() -> recon_core::detectors::est::EstReport {
    let mut est = EstDetector::new();
    for r in sample_lines() {
        est.observe(&r);
    }
    est.finish()
}

#[test]
fn est_claims_only_the_surcharge_when_unit_price_is_not_monthly_list() {
    let report = sample_report();
    let f = report
        .findings
        .iter()
        .find(|f| f.subscription_id.ends_with("0003"))
        .expect("the declared EST line must be found");

    assert_eq!(f.rate, d(3, 2));
    assert_eq!(f.reason, "Extended Service Term surcharge over monthly list price");
    assert_eq!(f.effective_unit_price, d(3090, 2));
    // Derived from the surcharge, not read from `UnitPrice`.
    assert_eq!(f.base_unit_price, d(3000, 2));
    assert_eq!(f.uplift_per_seat, d(90, 2));
    assert_eq!(f.billable_quantity, d(10, 0));
    assert_eq!(f.uplift_amount, d(900, 2));
    assert_eq!(f.monthly_run_rate, d(900, 2));
    // Declared by Microsoft, but the file's own list price does not corroborate it.
    assert_eq!(f.evidence_kind, EstEvidenceKind::DeclaredNotCorroborated);
    assert_eq!(f.confidence, d(90, 2));
    assert_eq!(f.customer_name, "Fabrikam, Inc.");
    assert_eq!(f.sku_name, "Project Plan 3");
    // EST rolls the subscription onto a monthly term, so this is fixable today.
    assert_eq!(f.remediation_window, RemediationWindow::Now);
    // The finding points back at a real row.
    assert_eq!(f.record_index, 2);
}

#[test]
fn est_finds_the_three_percent_penalty() {
    let report = sample_report();
    // S2: Exchange Online P1, 4.00 -> 4.12, 50 seats = 6.00/month.
    let f = report.findings.iter().find(|f| f.subscription_id.ends_with("0002")).expect("3% line");
    assert_eq!(f.rate, d(3, 2));
    assert_eq!(f.reason, "Extended Service Term surcharge over monthly list price");
    // Here `UnitPrice` really is monthly list, so it is used rather than derived.
    assert_eq!(f.base_unit_price, d(400, 2));
    assert_eq!(f.uplift_per_seat, d(12, 2));
    assert_eq!(f.uplift_amount, d(600, 2));
    assert_eq!(f.evidence_kind, EstEvidenceKind::DeclaredAndPriced);
    assert_eq!(f.confidence, d(100, 2));
}

#[test]
fn est_detects_an_undeclared_uplift_from_the_price_ratio_alone() {
    let report = sample_report();
    // S10 carries no PriceAdjustmentDescription: 15.00 -> 15.45 across 40 seats = 18.00.
    let f = report.findings.iter().find(|f| f.subscription_id.ends_with("0010")).expect("ratio line");
    assert_eq!(f.rate, d(3, 2));
    assert_eq!(f.uplift_amount, d(1800, 2));
    assert_eq!(f.evidence_kind, EstEvidenceKind::PriceRatio);
    assert!(f.price_adjustment_description.is_empty());
    // Ratio-only is suggestive, not proof, and must say so rather than claim certainty.
    assert_eq!(f.confidence, d(75, 2));
}

#[test]
fn est_totals_are_exact_and_the_noise_gate_holds() {
    let report = sample_report();

    // Four EST lines: 6.00 + 9.00 + 18.00 + 0.06.
    assert_eq!(report.findings.len(), 4);
    assert_eq!(report.subscriptions.len(), 4);

    // 6.00 + 9.00 + 18.00 — S11's 0.06/month is below the $5 gate.
    assert_eq!(report.total_monthly_run_rate, d(3300, 2));
    assert_eq!(report.total_uplift_amount, d(3300, 2));
    assert_eq!(report.noise_threshold_monthly, d(5, 0));

    assert_eq!(report.suppressed_subscription_count, 1);
    assert_eq!(report.suppressed_monthly_run_rate, d(6, 2));
    // Suppressed, not deleted: the row is still in the report for anyone who looks.
    assert!(report.findings.iter().any(|f| f.subscription_id.ends_with("0011")));
    assert_eq!(report.reportable().len(), 3);

    // Ranked by what it costs, largest first.
    let ranked: Vec<Dec> = report.reportable().iter().map(|s| s.monthly_run_rate).collect();
    assert_eq!(ranked, vec![d(1800, 2), d(900, 2), d(600, 2)]);
}

#[test]
fn a_subscription_sums_its_lines_exactly() {
    let mut det = EstDetector::new();
    let a = row(d(1845, 2), d(1500, 2), d(4, 0), "");
    let mut b = row(d(412, 2), d(400, 2), d(625, 1), "");
    b.record_index = 1;
    det.observe(&a);
    det.observe(&b);
    let report = det.finish();
    assert_eq!(report.subscriptions.len(), 1);
    let s = &report.subscriptions[0];
    // 13.80 + 7.500, kept at three places
    assert_eq!(s.uplift_amount.to_string(), "21.300");
    assert_eq!(s.monthly_run_rate.to_string(), "21.300");
    assert_eq!(s.line_count, 2);
}
