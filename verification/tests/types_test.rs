use recon_core::types::col;
use recon_core::{
    BillingCycle, BillingTerm, ChargeType, Date, Dec, ReconRow, ReferenceId, ReferenceIdFields,
    TermDuration, CANONICAL_COLUMNS,
};

/// Decode the JSON text of a `ReferenceId` cell the way the object form is read: `osId`
/// and `id` strings or null, `v` a whole number, all optional.
fn decode(json: Option<String>) -> Option<ReferenceIdFields> {
    let text = json?;
    let value: serde_json::Value = serde_json::from_str(&text).ok()?;
    let obj = value.as_object()?;
    let text_field = |name: &str| -> Result<Option<String>, ()> {
        match obj.get(name) {
            None | Some(serde_json::Value::Null) => Ok(None),
            Some(serde_json::Value::String(s)) => Ok(Some(s.clone())),
            Some(_) => Err(()),
        }
    };
    let os_id = text_field("osId").ok()?;
    let id = text_field("id").ok()?;
    let v = match obj.get("v") {
        None => 0,
        Some(n) => n.as_i64()?,
    };
    Some(ReferenceIdFields { os_id, id, v })
}

fn parse_reference(raw: &str) -> (ReferenceId, bool) {
    ReferenceId::parse(raw, decode(ReferenceId::json_text(raw)))
}

#[test]
fn canonical_column_count_is_fixed() {
    assert_eq!(CANONICAL_COLUMNS.len(), 48);
    assert_eq!(CANONICAL_COLUMNS[col::EFFECTIVE_UNIT_PRICE], "EffectiveUnitPrice");
    assert_eq!(CANONICAL_COLUMNS[col::BILLABLE_QUANTITY], "BillableQuantity");
    assert_eq!(CANONICAL_COLUMNS[col::CHARGE_TYPE], "ChargeType");
    assert_eq!(CANONICAL_COLUMNS[col::REFERENCE_ID], "ReferenceId");
}

#[test]
fn charge_type_is_case_insensitive() {
    for s in ["cycleCharge", "cyclecharge", "CycleCharge", "CYCLECHARGE", "cycle charge"] {
        assert_eq!(ChargeType::parse(s), ChargeType::CycleCharge, "{s}");
    }
    assert_eq!(ChargeType::parse("removeQuantity"), ChargeType::RemoveQuantity);
    assert_eq!(ChargeType::parse("cancelImmediate"), ChargeType::CancelImmediate);
    assert_eq!(ChargeType::parse("tierTransitionFee"), ChargeType::Other("tierTransitionFee".into()));
}

#[test]
fn credit_charge_types_have_a_negative_sign() {
    assert_eq!(ChargeType::RemoveQuantity.sign(), -1);
    assert_eq!(ChargeType::CancelImmediate.sign(), -1);
    assert_eq!(ChargeType::Credit.sign(), -1);
    assert_eq!(ChargeType::CycleCharge.sign(), 1);
    assert_eq!(ChargeType::AddQuantity.sign(), 1);
    // An unmodelled charge type must never be assumed to be a credit.
    assert_eq!(ChargeType::Other("tierTransitionFee".into()).sign(), 1);
}

#[test]
fn signed_quantity_does_not_double_negate() {
    let mut row = ReconRow { charge_type: ChargeType::RemoveQuantity, ..Default::default() };
    row.billable_quantity = Some(Dec::new(-2, 0));
    assert_eq!(row.signed_billable_quantity(), Some(Dec::new(-2, 0)));
    // Same line in the other dialect must land on the same answer.
    row.billable_quantity = Some(Dec::new(2, 0));
    assert_eq!(row.signed_billable_quantity(), Some(Dec::new(-2, 0)));
}

#[test]
fn reference_id_reads_both_shapes() {
    let (r, failed) = parse_reference("8a7b6c5d-0000-4000-8000-0000000000a1");
    assert!(!failed);
    assert_eq!(r, ReferenceId::Legacy("8a7b6c5d-0000-4000-8000-0000000000a1".into()));

    let (r, failed) = parse_reference(r#"{"osId":"OS-77341","id":"abc","v":2}"#);
    assert!(!failed);
    assert_eq!(r, ReferenceId::V2 { os_id: Some("OS-77341".into()), id: Some("abc".into()), v: 2 });
    assert_eq!(r.id(), Some("abc"));

    assert_eq!(parse_reference("").0, ReferenceId::Absent);

    // Malformed JSON degrades to a legacy scalar and flags the failure.
    let (r, failed) = parse_reference(r#"{"osId":"#);
    assert!(failed);
    assert!(matches!(r, ReferenceId::Legacy(_)));
}

#[test]
fn term_and_billing_cycle_splits_into_two_axes() {
    let t = BillingTerm::parse("Annual term, Monthly billing");
    assert_eq!(t.duration, TermDuration::Annual);
    assert_eq!(t.cycle, BillingCycle::Monthly);

    let t = BillingTerm::parse("Monthly term, Monthly billing");
    assert_eq!(t.duration, TermDuration::Monthly);

    let t = BillingTerm::parse("Triennial term, Annual billing");
    assert_eq!(t.duration, TermDuration::Triennial);
    assert_eq!(t.cycle, BillingCycle::Annual);

    assert_eq!(BillingTerm::parse("").duration, TermDuration::Unknown);
}

#[test]
fn charge_days_are_inclusive() {
    let row = ReconRow {
        charge_start_date: Date::from_ymd_opt(2026, 7, 1),
        charge_end_date: Date::from_ymd_opt(2026, 7, 31),
        ..Default::default()
    };
    assert_eq!(row.charge_days(), Some(31));
    assert!(row.is_full_month_period());
}

#[test]
fn reference_id_json_text_only_for_the_object_form() {
    assert_eq!(ReferenceId::json_text(" '{\"v\":1} "), Some("{\"v\":1}".to_string()));
    assert_eq!(ReferenceId::json_text("abc"), None);
    assert_eq!(ReferenceId::json_text(""), None);
    // Without a decoding the object form is kept verbatim and flagged.
    assert_eq!(ReferenceId::parse("{\"v\":1}", None), (ReferenceId::Legacy("{\"v\":1}".into()), true));
    assert!(ReferenceId::Absent.is_absent());
    assert_eq!(ReferenceId::Absent.id(), None);
}

#[test]
fn subscription_key_and_extended_cost() {
    let row = ReconRow {
        customer_id: "C1".into(),
        subscription_id: "S1".into(),
        charge_type: ChargeType::CancelImmediate,
        effective_unit_price: Some(Dec::new(150, 2)),
        billable_quantity: Some(Dec::new(40, 0)),
        ..Default::default()
    };
    assert_eq!(row.subscription_key(), ("C1", "S1"));
    assert_eq!(row.extended_cost(), Some(Dec::new(-60, 0)));
    assert!(ChargeType::CancelImmediate.is_credit());
    assert_eq!(ChargeType::CycleCharge.as_str(), "cycleCharge");
    assert_eq!(row.charge_days(), None);
    assert!(!row.is_full_month_period());
}
