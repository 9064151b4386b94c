use recon_core::{first_percentage, parse_date, parse_decimal, unguard, CellError, ChargeType, Date, Dec, ReconRow};

fn d(num: i64, scale: u32) -> Dec {
    Dec::new(num, scale)
}

#[test]
fn strips_the_excel_guard() {
    assert_eq!(unguard("'22.000000000000000000"), "22.000000000000000000");
    assert_eq!(unguard("  ' -2.0000 "), "-2.0000");
    assert_eq!(unguard("''5"), "5");
    assert_eq!(unguard(""), "");
}

#[test]
fn parses_the_three_wire_shapes() {
    assert_eq!(parse_decimal("'22.000000000000000000"), Ok(Some(d(22, 0))));
    assert_eq!(parse_decimal("'-2.0000"), Ok(Some(d(-2, 0))));
    assert_eq!(parse_decimal("'0E-20"), Ok(Some(Dec::zero())));
    assert_eq!(parse_decimal("'1.5E+3"), Ok(Some(d(1500, 0))));
    assert_eq!(parse_decimal(""), Ok(None));
    assert_eq!(parse_decimal("   "), Ok(None));
    assert_eq!(parse_decimal("'"), Ok(None));
    assert_eq!(parse_decimal("n/a"), Err(CellError::NotDecimal));
}

#[test]
fn keeps_all_eighteen_decimals() {
    let v = parse_decimal("'-28.387096774193548387").unwrap().unwrap();
    assert_eq!(v.to_string(), "-28.387096774193548387");
    // Three of these multiply back to an exact figure, unlike binary floating point.
    let row = ReconRow {
        charge_type: ChargeType::CycleCharge,
        effective_unit_price: Some(v),
        billable_quantity: Some(d(3, 0)),
        ..Default::default()
    };
    let cost = row.extended_cost().unwrap();
    assert_eq!(cost.to_string(), "-85.161290322580645161");
}

#[test]
fn parses_the_date_layouts() {
    let day = Date::from_ymd_opt(2026, 7, 1).unwrap();
    assert_eq!(parse_date("2026-07-01T00:00:00Z"), Ok(Some(day)));
    assert_eq!(parse_date("2026-07-01 00:00:00"), Ok(Some(day)));
    assert_eq!(parse_date("2026-07-01"), Ok(Some(day)));
    assert_eq!(parse_date("07/01/2026"), Ok(Some(day)));
    assert_eq!(parse_date(""), Ok(None));
    assert_eq!(parse_date("last tuesday"), Err(CellError::NotDate));
}

#[test]
fn reads_percentages_out_of_prose() {
    assert_eq!(first_percentage("Extended Service Terms 23% Fee Applied"), Some(d(23, 0)));
    assert_eq!(first_percentage("Extended Service Terms 3% Fee Applied"), Some(d(3, 0)));
    assert_eq!(first_percentage("uplift of 3.5% applied"), Some(d(35, 1)));
    assert_eq!(first_percentage("no numbers here"), None);
    assert_eq!(first_percentage("% leading"), None);
}

#[test]
fn other_date_layouts_and_their_failures() {
    assert_eq!(parse_date("'2026-07-01"), Ok(Some(Date::from_ymd_opt(2026, 7, 1).unwrap())));
    // `%m/%d/%Y` is tried before `%m/%d/%y` and takes a two-digit year as it stands.
    assert_eq!(parse_date("07/01/26"), Ok(Some(Date::from_ymd_opt(26, 7, 1).unwrap())));
    assert_eq!(parse_date("01.07.2026"), Ok(Some(Date::from_ymd_opt(2026, 7, 1).unwrap())));
    assert_eq!(parse_date("2026-02-30"), Err(CellError::NotDate));
}

#[test]
fn decimal_rendering_and_rounding() {
    assert_eq!(d(888, 1).to_string(), "88.8");
    assert_eq!(d(888, 1).to_string_fixed(2), "88.80");
    assert_eq!(d(-28387, 3).round_dp(2).to_string(), "-28.39");
    assert_eq!(d(2125, 3).round_dp(2).to_string(), "2.12");
    assert_eq!(d(2135, 3).round_dp(2).to_string(), "2.14");
    assert_eq!(d(88_800, 3).normalize().to_string(), "88.8");
    assert_eq!(d(0, 4).normalize().to_string(), "0");
    assert!(d(250, 2) == d(25, 1));
    assert!(d(-1, 0).lt(&Dec::zero()));
}

#[test]
fn unguarding_twice_changes_nothing() {
    for raw in ["  ''  22.50  ", "'0E-20", "plain", "", "'", " ' ' x"] {
        let once = unguard(raw);
        assert_eq!(unguard(&once), once, "{raw:?}");
    }
}

#[test]
fn a_charge_type_parses_back_from_its_own_spelling() {
    for raw in ["cyclecharge", "Purchase-Fee", "ADD_QUANTITY", "removeQuantityFee", "cancel instant", "Refund", "  tierTransitionFee "] {
        let t = ChargeType::parse(raw);
        assert_eq!(ChargeType::parse(t.as_str()), t, "{raw:?}");
    }
}

#[test]
fn the_largest_amount_still_renders_with_two_places() {
    let max = Dec::from_parts(false, 79_228_162_514_264_337_593_543_950_335, 0).unwrap();
    assert_eq!(max.to_string_fixed(2), "79228162514264337593543950335.00");
    let neg = Dec::from_parts(true, 79_228_162_514_264_337_593_543_950_335, 0).unwrap();
    assert_eq!(neg.to_string_fixed(2), "-79228162514264337593543950335.00");
}
