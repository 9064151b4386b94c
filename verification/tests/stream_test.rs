//! End-to-end tests: bytes are split into records with the `csv` crate (and un-gzipped with
//! `flate2`), and each record is handed to the library one at a time, as a file reader
//! built on it does.

use std::cell::Cell;
use std::io::{BufRead, BufReader, Read, Write};
use std::rc::Rc;

use csv::{ReaderBuilder, StringRecord};
use flate2::bufread::MultiGzDecoder;
use flate2::write::GzEncoder;
use flate2::Compression;

use recon_core::detectors::est::{EstDetector, EstPolicy, EstReport};
use recon_core::parser::normalize_header;
use recon_core::report::{Analysis, AnalysisResult, Money, Phase, Progress, ANALYZER_VERSION};
use recon_core::{
    BillingCycle, ChargeType, Date, Dec, ParseOptions, ReconError, ReconRow, ReferenceId,
    ReferenceIdFields, RowStream, StreamStats, TermDuration, CANONICAL_COLUMNS,
};

// -------------------------------------------------------------------------------------
// Driving the library over bytes
// -------------------------------------------------------------------------------------

#[derive(Debug)]
enum Failure {
    Recon(ReconError),
    Csv(csv::Error),
    Io(std::io::Error),
}

impl Failure {
    fn message(&self) -> String {
        match self {
            Failure::Recon(e) => e.message(),
            Failure::Csv(e) => format!("csv error: {e}"),
            Failure::Io(e) => format!("io error: {e}"),
        }
    }
}

/// Decode the JSON text of a `ReferenceId` cell: `osId` and `id` strings or null, `v` a
/// whole number, all optional.
fn decode(json: Option<String>) -> Option<ReferenceIdFields> {
    let text = json?;
    let value: serde_json::Value = serde_json::from_str(&text).ok()?;
    let obj = value.as_object()?;
    let text_field = |name: &str| -> Result<Option<String>, ()> {
        match obj.get(name) {
            None | Some(serde_json::Value::Null) => Ok(None),
            Some(serde_json::Value::String(s)) => Ok(Some(s.clone())),
            Some(_) => Err(()),
        }
    };
    let os_id = text_field("osId").ok()?;
    let id = text_field("id").ok()?;
    let v = match obj.get("v") {
        None => 0,
        Some(n) => n.as_i64()?,
    };
    Some(ReferenceIdFields { os_id, id, v })
}

/// Read uncompressed CSV, handing every row to `on_row`.
fn stream_csv<R: Read>(
    reader: R,
    options: &ParseOptions,
    mut on_row: impl FnMut(&ReconRow),
) -> Result<StreamStats, Failure> {
    let mut rdr = ReaderBuilder::new()
        .has_headers(true)
        .flexible(true)
        .from_reader(BufReader::with_capacity(64 * 1024, reader));
    let header: Vec<String> =
        rdr.headers().map_err(Failure::Csv)?.iter().map(|s| s.to_owned()).collect();
    let mut stream = RowStream::start(&header, options.clone()).map_err(Failure::Recon)?;
    let mut rec = StringRecord::new();
    // The row limit is consulted before each record, so `max_rows: Some(0)` reads none.
    while !stream.limit_reached() {
        match rdr.read_record(&mut rec) {
            Ok(false) => break,
            Ok(true) => {}
            Err(e) => {
                assert!(stream.stats.records_read < u64::MAX && stream.stats.rows_failed < u64::MAX);
                if stream.on_read_error() {
                    return Err(Failure::Csv(e));
                }
                continue;
            }
        }
        let fields: Vec<String> = rec.iter().map(|s| s.to_owned()).collect();
        let decoded = decode(stream.reference_json(&fields));
        match stream.on_record(&fields, decoded).map_err(Failure::Recon)? {
            Some(row) => on_row(&row),
            None => {}
        }
    }
    Ok(stream.finish())
}

/// Read gzip (including multi-member gzip) or plain CSV, decided from the magic bytes.
fn stream_auto<R: Read>(
    reader: R,
    options: &ParseOptions,
    on_row: impl FnMut(&ReconRow),
) -> Result<StreamStats, Failure> {
    let mut buf = BufReader::with_capacity(64 * 1024, reader);
    let is_gzip = recon_core::parser::is_gzip(buf.fill_buf().map_err(Failure::Io)?);
    if is_gzip {
        stream_csv(MultiGzDecoder::new(buf), options, on_row)
    } else {
        stream_csv(buf, options, on_row)
    }
}

fn parse_all(csv: &str) -> (Vec<ReconRow>, StreamStats) {
    let mut rows = Vec::new();
    let stats = stream_csv(csv.as_bytes(), &ParseOptions::default(), |r| rows.push(r.clone())).unwrap();
    (rows, stats)
}

/// Counts bytes handed out of a slice.
struct CountingReader<'a> {
    inner: &'a [u8],
    consumed: Rc<Cell<u64>>,
}

impl Read for CountingReader<'_> {
    fn read(&mut self, buf: &mut [u8]) -> std::io::Result<usize> {
        let n = self.inner.read(buf)?;
        self.consumed.set(self.consumed.get() + n as u64);
        Ok(n)
    }
}

fn analyze_with_progress(
    bytes: &[u8],
    row_interval: u64,
    mut on_progress: impl FnMut(&Progress),
) -> Result<AnalysisResult, String> {
    let consumed = Rc::new(Cell::new(0u64));
    let (mut analysis, first) = Analysis::start(bytes.len() as u64, row_interval)?;
    on_progress(&first);
    let reader = CountingReader { inner: bytes, consumed: Rc::clone(&consumed) };
    let stats = stream_auto(reader, &ParseOptions::default(), |row| {
        if let Some(p) = analysis.on_row(row, consumed.get()) {
            on_progress(&p);
        }
    })
    .map_err(|e| format!("Could not read that file: {}", e.message()))?;
    let (detecting, finalizing, result) = analysis.finish(stats, consumed.get());
    on_progress(&detecting);
    on_progress(&finalizing);
    Ok(result)
}

fn analyze(bytes: &[u8]) -> Result<AnalysisResult, String> {
    analyze_with_progress(bytes, 0, |_| {})
}

fn gzip(text: &str) -> Vec<u8> {
    let mut enc = GzEncoder::new(Vec::new(), Compression::fast());
    enc.write_all(text.as_bytes()).unwrap();
    enc.finish().unwrap()
}

// -------------------------------------------------------------------------------------
// A synthetic export: 14 rows over two gzip members, every edge case of the README
// -------------------------------------------------------------------------------------

const EXPECTED_ROWS: u64 = 14;
const PARTNER: &str = "a1b2c3d4-0000-4000-8000-000000000001";

fn sub(n: u32) -> String {
    format!("5c2d9e10-0000-4000-8000-00000000{n:04}")
}

fn line(n: u32, cells: &[(&str, &str)]) -> Vec<String> {
    let mut values: Vec<String> = Vec::new();
    for name in CANONICAL_COLUMNS.iter().copied().chain(std::iter::once("NewMicrosoftColumn2026")) {
        let default: String = match name {
            "PartnerId" => PARTNER.into(),
            "PartnerName" => "Contoso Partner Ltd".into(),
            "CustomerId" => format!("7e0c4b22-0000-4000-8000-00000000{n:04}"),
            "CustomerName" => format!("Customer {n}"),
            "CustomerDomainName" => format!("customer{n}.onmicrosoft.com"),
            "CustomerCountry" => "US".into(),
            "InvoiceNumber" => "G012345678".into(),
            "OrderId" => format!("order-{n}"),
            "ProductId" => "CFQ7TTC0LH18".into(),
            "SkuId" => "0001".into(),
            "SkuName" => "Microsoft 365 Business Basic".into(),
            "ProductName" => "Microsoft 365 Business Basic".into(),
            "PublisherName" => "Microsoft Corporation".into(),
            "SubscriptionDescription" => format!("Subscription {n}"),
            "SubscriptionId" => sub(n),
            "ChargeStartDate" => "2026-07-01T00:00:00Z".into(),
            "ChargeEndDate" => "2026-07-31T00:00:00Z".into(),
            "TermAndBillingCycle" => "Monthly term, Monthly billing".into(),
            "UnitType" => "Licenses".into(),
            "Currency" => "USD".into(),
            "PricingCurrency" => "USD".into(),
            "PCToBCExchangeRate" => "'1".into(),
            "PCToBCExchangeRateDate" => "2026-07-01T00:00:00Z".into(),
            "SubscriptionStartDate" => "2025-07-01T00:00:00Z".into(),
            "SubscriptionEndDate" => "2027-06-30T00:00:00Z".into(),
            "ReferenceId" => format!("8a7b6c5d-0000-4000-8000-0000000000{n:02}"),
            "ProductCategory" => "Software".into(),
            _ => String::new(),
        };
        let value = cells.iter().find(|(k, _)| *k == name).map(|(_, v)| v.to_string()).unwrap_or(default);
        values.push(value);
    }
    values
}

fn fixture_rows() -> Vec<Vec<String>> {
    vec![
        line(1, &[
            ("ChargeType", "cycleCharge"),
            ("EffectiveUnitPrice", "'22.000000000000000000"),
            ("UnitPrice", "'22.000000000000000000"),
            ("Quantity", "'25"),
            ("BillableQuantity", "'25"),
            ("Subtotal", "'550.000000000000000000"),
            ("TaxTotal", "'0E-20"),
            ("Total", "'550"),
            ("TermAndBillingCycle", "Annual term, Monthly billing"),
            ("ReferenceId", "8a7b6c5d-0000-4000-8000-0000000000a1"),
        ]),
        line(2, &[
            ("ChargeType", "cyclecharge"),
            ("SkuName", "Exchange Online (Plan 1)"),
            ("EffectiveUnitPrice", "'4.12"),
            ("UnitPrice", "'4.00"),
            ("Quantity", "'50"),
            ("BillableQuantity", "'50"),
            ("PriceAdjustmentDescription", "Extended Service Terms 3% Fee Applied"),
        ]),
        line(3, &[
            ("ChargeType", "CycleCharge"),
            ("CustomerName", "Fabrikam, Inc."),
            ("SkuName", "Project Plan 3"),
            ("EffectiveUnitPrice", "'36.90"),
            ("UnitPrice", "'30.00"),
            ("Quantity", "'10"),
            ("BillableQuantity", "'10"),
            ("PriceAdjustmentDescription", "Extended Service Terms 23% Fee Applied"),
        ]),
        line(4, &[
            ("ChargeType", "removeQuantity"),
            ("EffectiveUnitPrice", "'22.000000000000000000"),
            ("UnitPrice", "'22.000000000000000000"),
            ("Quantity", "'23"),
            ("BillableQuantity", "'-2.0000"),
            ("Subtotal", "'-28.387096774193548387"),
            ("ChargeStartDate", "2026-07-12T00:00:00Z"),
            ("TermAndBillingCycle", "Annual term, Monthly billing"),
        ]),
        line(4, &[
            ("ChargeType", "addQuantity"),
            ("EffectiveUnitPrice", "'22"),
            ("UnitPrice", "'22"),
            ("Quantity", "'26"),
            ("BillableQuantity", "'3"),
            ("ChargeStartDate", "2026-07-12"),
            ("ChargeEndDate", "07/31/2026"),
            ("TermAndBillingCycle", "Annual term, Monthly billing"),
        ]),
        line(5, &[
            ("ChargeType", "cycleCharge"),
            ("EffectiveUnitPrice", "'12.50"),
            ("UnitPrice", "'12.50"),
            ("BillableQuantity", "'8"),
            ("ReferenceId", r#"{"osId":"OS-77341","id":"8a7b6c5d-0000-4000-8000-0000000000a6","v":2}"#),
            ("NewMicrosoftColumn2026", "future-value-we-do-not-model"),
        ]),
        line(6, &[
            ("ChargeType", "cancelImmediate"),
            ("EffectiveUnitPrice", "'1.50"),
            ("UnitPrice", "'1.50"),
            ("BillableQuantity", "'-40"),
            ("Subtotal", "'-60"),
        ]),
        line(7, &[
            ("ChargeType", "CycleCharge"),
            ("EffectiveUnitPrice", "'6"),
            ("UnitPrice", "'6"),
            ("BillableQuantity", "'10"),
        ]),
        line(8, &[
            ("ChargeType", "cycleCharge"),
            ("EffectiveUnitPrice", "'14.00"),
            ("UnitPrice", "'10.00"),
            ("BillableQuantity", "'30"),
        ]),
        line(9, &[
            ("ChargeType", "cycleCharge"),
            ("EffectiveUnitPrice", "'120"),
            ("UnitPrice", "'120"),
            ("BillableQuantity", "'5"),
            ("ChargeEndDate", "2027-06-30T00:00:00Z"),
            ("TermAndBillingCycle", "Annual term, Annual billing"),
        ]),
        line(10, &[
            ("ChargeType", "cycleCharge"),
            ("EffectiveUnitPrice", "'18.45"),
            ("UnitPrice", "'15.00"),
            ("BillableQuantity", "'4"),
        ]),
        line(11, &[
            ("ChargeType", "cycleCharge"),
            ("EffectiveUnitPrice", "'2.06"),
            ("UnitPrice", "'2.00"),
            ("BillableQuantity", "'1"),
            ("PriceAdjustmentDescription", "Extended Service Terms 3% Fee Applied"),
        ]),
        line(12, &[
            ("ChargeType", "tierTransitionFee"),
            ("EffectiveUnitPrice", ""),
            ("UnitPrice", ""),
            ("BillableQuantity", "'1"),
            ("ReferenceId", ""),
        ]),
        line(13, &[
            ("ChargeType", "cycleCharge"),
            ("EffectiveUnitPrice", "'9"),
            ("UnitPrice", "'9"),
            ("BillableQuantity", "'2"),
        ]),
    ]
}

fn csv_text(rows: &[Vec<String>], with_header: bool) -> String {
    let mut w = csv::WriterBuilder::new().terminator(csv::Terminator::CRLF).from_writer(Vec::new());
    if with_header {
        let mut header: Vec<String> = CANONICAL_COLUMNS.iter().map(|s| s.to_string()).collect();
        header[0] = format!("\u{feff}{}", header[0]);
        header.push("NewMicrosoftColumn2026".into());
        w.write_record(&header).unwrap();
    }
    for r in rows {
        w.write_record(r).unwrap();
    }
    String::from_utf8(w.into_inner().unwrap()).unwrap()
}

/// The export as Partner Center ships it: the blobs concatenated, one gzip member each.
fn fixture() -> Vec<u8> {
    let rows = fixture_rows();
    let mut bytes = gzip(&csv_text(&rows[..6], true));
    bytes.extend(gzip(&csv_text(&rows[6..], false)));
    bytes
}

fn load() -> (Vec<ReconRow>, StreamStats) {
    let mut rows = Vec::new();
    let opts = ParseOptions { capture_unknown_columns: true, ..Default::default() };
    let stats = stream_auto(fixture().as_slice(), &opts, |row| rows.push(row.clone())).expect("fixture parses");
    (rows, stats)
}

fn find(rows: &[ReconRow], suffix: &str) -> Vec<ReconRow> {
    rows.iter().filter(|r| r.subscription_id.ends_with(suffix)).cloned().collect()
}

fn d(num: i64, scale: u32) -> Dec {
    Dec::new(num, scale)
}

// -------------------------------------------------------------------------------------
// Reading records
// -------------------------------------------------------------------------------------

const HEADER: &str = "\u{feff}CustomerId,SubscriptionId,ChargeType,EffectiveUnitPrice,BillableQuantity";

#[test]
fn strips_the_bom_from_the_first_header_cell() {
    let (rows, _) = parse_all(&format!("{HEADER}\r\nC1,S1,cycleCharge,'10.00,'3\r\n"));
    assert_eq!(rows[0].customer_id, "C1");
    assert_eq!(rows[0].extended_cost(), Some(d(30, 0)));
}

#[test]
fn a_missing_required_column_is_fatal() {
    let err = stream_csv(
        "CustomerId,SubscriptionId,ChargeType\r\nC1,S1,cycleCharge\r\n".as_bytes(),
        &ParseOptions::default(),
        |_| {},
    )
    .unwrap_err();
    assert!(matches!(err, Failure::Recon(ReconError::MissingRequiredColumns(ref c)) if c.len() == 2));
}

#[test]
fn unknown_columns_are_reported_not_fatal() {
    let csv = format!("{HEADER},NewMicrosoftColumn2026\r\nC1,S1,cycleCharge,'1,'1,surprise\r\n");
    let (rows, stats) = parse_all(&csv);
    assert_eq!(stats.unknown_columns, vec!["NewMicrosoftColumn2026"]);
    assert_eq!(rows.len(), 1);
    // Values are dropped unless explicitly requested.
    assert!(rows[0].unknown.is_empty());

    let mut kept = Vec::new();
    let opts = ParseOptions { capture_unknown_columns: true, ..Default::default() };
    stream_csv(csv.as_bytes(), &opts, |r| kept.push(r.clone())).unwrap();
    assert_eq!(kept[0].unknown, vec![("NewMicrosoftColumn2026".to_string(), "surprise".to_string())]);
}

#[test]
fn reordered_and_renamed_columns_still_bind() {
    let csv = "billable quantity,Charge_Type,SUBSCRIPTIONID,effectiveunitprice,customerid\r\n\
               '4,cycleCharge,S1,'2.50,C1\r\n";
    let (rows, _) = parse_all(csv);
    assert_eq!(rows[0].customer_id, "C1");
    assert_eq!(rows[0].extended_cost(), Some(d(10, 0)));
}

#[test]
fn a_bad_cell_degrades_the_field_not_the_row() {
    let (rows, stats) = parse_all(&format!("{HEADER}\r\nC1,S1,cycleCharge,n/a,'3\r\n"));
    assert_eq!(rows.len(), 1);
    assert_eq!(rows[0].effective_unit_price, None);
    assert_eq!(rows[0].billable_quantity, Some(d(3, 0)));
    assert_eq!(stats.row_error_count, 1);
    assert_eq!(stats.row_errors[0].column, "EffectiveUnitPrice");
    assert!(!stats.is_clean());
}

#[test]
fn strict_mode_turns_a_bad_cell_into_an_error() {
    let opts = ParseOptions { strict: true, ..Default::default() };
    let err = stream_csv(format!("{HEADER}\r\nC1,S1,cycleCharge,n/a,'3\r\n").as_bytes(), &opts, |_| {})
        .unwrap_err();
    assert!(matches!(err, Failure::Recon(ReconError::StrictRow(_))));
}

#[test]
fn a_repeated_header_mid_stream_is_skipped() {
    // What two per-blob exports give when concatenated, each with its own header.
    let hdr = "PartnerId,CustomerId,SubscriptionId,ChargeType,EffectiveUnitPrice,BillableQuantity";
    let csv = format!("\u{feff}{hdr}\r\nP1,C1,S1,cycleCharge,'1,'1\r\n{hdr}\r\nP1,C2,S2,cycleCharge,'1,'1\r\n");
    let (rows, stats) = parse_all(&csv);
    assert_eq!(stats.repeated_headers_skipped, 1);
    assert_eq!(rows.len(), 2);
    assert_eq!(rows[1].customer_id, "C2");
    // Record indices stay contiguous: the skipped header does not consume one.
    assert_eq!(rows[1].record_index, 1);
}

#[test]
fn max_rows_stops_early() {
    let mut csv = String::from(HEADER) + "\r\n";
    for i in 0..10 {
        csv.push_str(&format!("C{i},S{i},cycleCharge,'1,'1\r\n"));
    }
    let opts = ParseOptions { max_rows: Some(3), ..Default::default() };
    let mut n = 0;
    let stats = stream_csv(csv.as_bytes(), &opts, |_| n += 1).unwrap();
    assert_eq!((n, stats.rows_parsed), (3, 3));
}

#[test]
fn auto_detects_gzip_by_magic_bytes() {
    let csv = format!("{HEADER}\r\nC1,S1,cycleCharge,'7,'2\r\n");
    let gz = gzip(&csv);
    for bytes in [csv.as_bytes(), gz.as_slice()] {
        let mut rows = Vec::new();
        stream_auto(bytes, &ParseOptions::default(), |r| rows.push(r.clone())).unwrap();
        assert_eq!(rows[0].extended_cost(), Some(d(14, 0)));
    }
}

#[test]
fn header_names_normalise_alike() {
    assert_eq!(normalize_header("\u{feff}PartnerId"), "partnerid");
    assert_eq!(normalize_header("Partner Id"), "partnerid");
    assert_eq!(normalize_header("partner_id"), "partnerid");
    assert_eq!(normalize_header("  "), "");
}

#[test]
fn an_empty_file_has_no_header() {
    let err = stream_csv("".as_bytes(), &ParseOptions::default(), |_| {}).unwrap_err();
    assert!(matches!(err, Failure::Recon(ReconError::EmptyHeader)));
    assert_eq!(err.message(), "the file has no header row");
}

#[test]
fn retained_errors_are_capped_but_all_are_counted() {
    let mut csv = String::from(HEADER) + "\r\n";
    for i in 0..5 {
        csv.push_str(&format!("C{i},S{i},cycleCharge,bad,worse\r\n"));
    }
    let opts = ParseOptions { max_retained_row_errors: 3, ..Default::default() };
    let stats = stream_csv(csv.as_bytes(), &opts, |_| {}).unwrap();
    assert_eq!(stats.row_error_count, 10);
    assert_eq!(stats.row_errors.len(), 3);
    assert_eq!(stats.row_errors[0].column, "EffectiveUnitPrice");
    assert_eq!(stats.row_errors[1].column, "BillableQuantity");
    assert_eq!(stats.row_errors[2].record_index, 1);
    assert_eq!(
        stats.row_errors[0].message(),
        "column EffectiveUnitPrice is not a valid decimal (value: \"bad\")"
    );
}

#[test]
fn duplicated_header_names_bind_the_first_column() {
    let csv = "CustomerId,SubscriptionId,ChargeType,EffectiveUnitPrice,BillableQuantity,Customer_Id\r\n\
               C1,S1,cycleCharge,'1,'1,C9\r\n";
    let (rows, stats) = parse_all(csv);
    assert_eq!(rows[0].customer_id, "C1");
    assert!(stats.unknown_columns.is_empty());
    assert_eq!(stats.missing_columns.len(), 43);
}

// -------------------------------------------------------------------------------------
// The whole export
// -------------------------------------------------------------------------------------

#[test]
fn every_row_parses_across_both_gzip_members() {
    let (rows, stats) = load();

    // The decisive assertion: rows 7..14 live in the second gzip member.
    assert_eq!(stats.rows_parsed, EXPECTED_ROWS, "multi-member gzip was not fully read");
    assert_eq!(rows.len() as u64, EXPECTED_ROWS);
    assert_eq!(stats.rows_failed, 0);
    assert_eq!(stats.row_error_count, 0, "unexpected cell errors: {:?}", stats.row_errors);
    assert!(stats.is_clean());

    // Record indices are contiguous and usable as evidence anchors.
    for (i, row) in rows.iter().enumerate() {
        assert_eq!(row.record_index, i as u64);
    }
}

#[test]
fn the_bom_does_not_swallow_the_first_column() {
    let (rows, _) = load();
    // If the BOM were left on the header, PartnerId would bind to nothing.
    assert!(rows.iter().all(|r| r.partner_id == PARTNER));
}

#[test]
fn schema_drift_is_reported_and_survivable() {
    let (rows, stats) = load();

    assert_eq!(stats.unknown_columns, vec!["NewMicrosoftColumn2026"]);
    assert!(stats.missing_columns.is_empty(), "missing: {:?}", stats.missing_columns);

    let with_value = rows.iter().find(|r| r.subscription_id.ends_with("0005")).unwrap();
    assert_eq!(
        with_value.unknown,
        vec![("NewMicrosoftColumn2026".to_string(), "future-value-we-do-not-model".to_string())]
    );
}

#[test]
fn quoted_fields_and_embedded_commas_survive() {
    let (rows, _) = load();
    assert!(rows.iter().any(|r| r.customer_name == "Fabrikam, Inc."));
    assert!(rows.iter().any(|r| r.term_and_billing_cycle == "Annual term, Monthly billing"));
}

#[test]
fn excel_guarded_and_scientific_numbers_parse_exactly() {
    let (rows, _) = load();

    let baseline = &find(&rows, "0001")[0];
    assert_eq!(baseline.effective_unit_price, Some(d(22, 0)));
    assert_eq!(baseline.billable_quantity, Some(d(25, 0)));
    assert_eq!(baseline.subtotal, Some(d(550, 0)));
    // `'0E-20`: scientific notation.
    assert_eq!(baseline.tax_total, Some(Dec::zero()));

    // 18 decimals held exactly.
    let removal = find(&rows, "0004").into_iter().find(|r| r.charge_type == ChargeType::RemoveQuantity).unwrap();
    assert_eq!(removal.subtotal.unwrap().to_string(), "-28.387096774193548387");
}

#[test]
fn charge_types_parse_regardless_of_casing() {
    let (rows, _) = load();

    // cycleCharge / cyclecharge / CycleCharge all appear in the file.
    let cycles = rows.iter().filter(|r| r.charge_type == ChargeType::CycleCharge).count();
    assert_eq!(cycles, 10);

    // An unmodelled charge type is preserved verbatim rather than guessed at.
    let unknown = &find(&rows, "0012")[0];
    assert_eq!(unknown.charge_type, ChargeType::Other("tierTransitionFee".into()));
    assert_eq!(unknown.charge_type.sign(), 1, "unknown types must not be assumed to be credits");
    // Blank price cells are absent, not zero.
    assert_eq!(unknown.effective_unit_price, None);
    assert_eq!(unknown.reference_id, ReferenceId::Absent);
}

#[test]
fn negative_quantities_on_credits_are_not_double_negated() {
    let (rows, _) = load();

    let removal = find(&rows, "0004").into_iter().find(|r| r.charge_type == ChargeType::RemoveQuantity).unwrap();
    assert_eq!(removal.billable_quantity, Some(d(-2, 0)));
    // Multiplying by the charge type's sign would yield +2 and flip a credit into a charge.
    assert_eq!(removal.signed_billable_quantity(), Some(d(-2, 0)));
    assert_eq!(removal.extended_cost(), Some(d(-44, 0)));
    assert_eq!(removal.charge_days(), Some(20));

    // The addQuantity sibling on the same subscription stays positive.
    let addition = find(&rows, "0004").into_iter().find(|r| r.charge_type == ChargeType::AddQuantity).unwrap();
    assert_eq!(addition.signed_billable_quantity(), Some(d(3, 0)));

    // A whole-subscription cancellation, already negative in the file.
    let cancel = &find(&rows, "0006")[0];
    assert_eq!(cancel.charge_type, ChargeType::CancelImmediate);
    assert_eq!(cancel.signed_billable_quantity(), Some(d(-40, 0)));
    assert_eq!(cancel.subtotal, Some(d(-60, 0)));

    // Net seat movement on the prorated subscription: -2 + 3 = +1.
    let net: Vec<Dec> = find(&rows, "0004").iter().filter_map(|r| r.signed_billable_quantity()).collect();
    assert_eq!(net.len(), 2);
    assert_eq!(net[0].to_string(), "-2.0000");
    assert_eq!(net[1], d(3, 0));
}

#[test]
fn reference_id_reads_both_the_legacy_and_the_v2_shape() {
    let (rows, _) = load();

    let legacy = &find(&rows, "0001")[0];
    assert_eq!(legacy.reference_id, ReferenceId::Legacy("8a7b6c5d-0000-4000-8000-0000000000a1".into()));

    let v2 = &find(&rows, "0005")[0];
    assert_eq!(
        v2.reference_id,
        ReferenceId::V2 {
            os_id: Some("OS-77341".into()),
            id: Some("8a7b6c5d-0000-4000-8000-0000000000a6".into()),
            v: 2,
        }
    );
    // Both shapes answer the same question.
    assert_eq!(v2.reference_id.id(), Some("8a7b6c5d-0000-4000-8000-0000000000a6"));
    assert!(rows.iter().any(|r| r.reference_id.is_absent()));
}

#[test]
fn terms_are_split_into_commitment_and_billing_cycle() {
    let (rows, _) = load();

    let monthly_billed_annual = &find(&rows, "0001")[0];
    assert_eq!(monthly_billed_annual.term.duration, TermDuration::Annual);
    assert_eq!(monthly_billed_annual.term.cycle, BillingCycle::Monthly);

    let annual = &find(&rows, "0009")[0];
    assert_eq!(annual.term.duration, TermDuration::Annual);
    assert_eq!(annual.term.cycle, BillingCycle::Annual);
    assert_eq!(annual.charge_days(), Some(365));

    let est_monthly = &find(&rows, "0002")[0];
    assert_eq!(est_monthly.term.duration, TermDuration::Monthly);
}

#[test]
fn the_gzip_sniffer_reaches_the_same_answer() {
    let bytes = fixture();
    let mut n = 0u64;
    let stats = stream_auto(bytes.as_slice(), &ParseOptions::default(), |_| n += 1).unwrap();
    assert_eq!((n, stats.rows_parsed), (EXPECTED_ROWS, EXPECTED_ROWS));
}

fn est_report_with(det: EstDetector) -> EstReport {
    let mut est = det;
    stream_auto(fixture().as_slice(), &ParseOptions::default(), |row| est.observe(row)).expect("parses");
    est.finish()
}

#[test]
fn est_leaves_ordinary_lines_alone() {
    let report = est_report_with(EstDetector::new());
    let flagged: Vec<&str> = report.findings.iter().map(|f| f.subscription_id.as_str()).collect();

    // Baseline cycle charge at list price.
    assert!(!flagged.iter().any(|s| s.ends_with("0001")));
    // Prorations at list price.
    assert!(!flagged.iter().any(|s| s.ends_with("0004")));
    // An expired promo is a 40% jump: a real finding, but not this detector's.
    assert!(!flagged.iter().any(|s| s.ends_with("0008")));
    // Annual commitment at list price.
    assert!(!flagged.iter().any(|s| s.ends_with("0009")));
}

#[test]
fn est_respects_the_policy_effective_date() {
    // Pin the policy to a date after every charge in the file: nothing may be flagged.
    let mut future = EstPolicy::current();
    future.effective_from = Date::from_ymd_opt(2027, 1, 1).unwrap();

    let report = est_report_with(EstDetector::with_policy(future));
    assert!(report.findings.is_empty(), "rates must not be applied before they exist");
    assert_eq!(report.total_monthly_run_rate, Dec::zero());
}

#[test]
fn est_rolls_up_the_fixture() {
    let report = est_report_with(EstDetector::new());
    assert_eq!(report.findings.len(), 4);
    assert_eq!(report.subscriptions.len(), 4);
    assert_eq!(report.total_monthly_run_rate, d(8880, 2));
    assert_eq!(report.total_uplift_amount, d(8880, 2));
    assert_eq!(report.suppressed_monthly_run_rate, d(6, 2));
    assert_eq!(report.suppressed_subscription_count, 1);
    let ranked: Vec<String> = report.reportable().iter().map(|s| s.monthly_run_rate.to_string()).collect();
    assert_eq!(ranked, vec!["69.00", "13.80", "6.00"]);
    // Suppressed, never deleted: every line is counted under its subscription.
    let lines: usize = report.subscriptions.iter().map(|s| s.line_count).sum();
    assert_eq!(lines, report.findings.len());
    let indices: Vec<u64> = report.subscriptions.iter().flat_map(|s| s.record_indices.clone()).collect();
    assert_eq!(indices, vec![2, 10, 1, 11]);
}

// -------------------------------------------------------------------------------------
// The payload
// -------------------------------------------------------------------------------------

#[test]
fn money_never_becomes_a_float() {
    let m = Money::new(d(888, 1), "USD");
    assert_eq!(m.value, "88.8");
    assert_eq!(m.display, "$88.80");

    // Eighteen decimals survive the trip; only the display copy is rounded.
    let exact = Money::new(Dec::from_parts(true, 28_387_096_774_193_548_387, 18).unwrap(), "USD");
    assert_eq!(exact.value, "-28.387096774193548387");
    assert_eq!(exact.display, "-$28.39");

    assert_eq!(Money::new(d(5, 0), "PLN").display, "5.00 PLN");
    assert_eq!(Money::new(d(5, 0), "").display, "5.00");
    assert_eq!(Money::new(Dec::zero(), "USD").display, "$0.00");
}

#[test]
fn money_symbols_and_tiny_negatives() {
    assert_eq!(Money::new(d(5, 0), "EUR").display, "\u{20ac}5.00");
    assert_eq!(Money::new(d(5, 0), "GBP").display, "\u{a3}5.00");
    assert_eq!(Money::new(d(5, 0), "NZD").display, "$5.00");
    // Rounds to zero: no minus sign in front of nothing.
    assert_eq!(Money::new(d(-1, 3), "USD").display, "$0.00");
    assert_eq!(Money::new(d(-1, 3), "USD").value, "-0.001");
}

#[test]
fn analyses_the_fixture_end_to_end() {
    let r = analyze(&fixture()).expect("fixture analyses");

    assert_eq!(r.rows_parsed, 14, "both gzip members must be read");
    assert_eq!(r.rows_failed, 0);
    assert_eq!(r.currency, "USD");

    // Exact value is canonical, not zero-padded; the display copy is the money-shaped one.
    assert_eq!(r.total_est_leak_monthly.value, "88.8");
    assert_eq!(r.total_est_leak_monthly.display, "$88.80");
    assert_eq!(r.suppressed_monthly.value, "0.06");
    assert_eq!(r.suppressed_subscription_count, 1);
    assert_eq!(r.noise_threshold_monthly.display, "$5.00");

    assert_eq!(r.findings.len(), 4);
    // Four subscriptions carry a finding, but only three are behind the headline.
    assert_eq!(r.reportable_subscription_count, 3);

    // The build that produced these figures rides along with them.
    assert_eq!(r.analyzer_version, ANALYZER_VERSION);
    assert!(!r.analyzer_version.is_empty());

    // The unknown 49th column is surfaced rather than swallowed.
    assert_eq!(r.unknown_columns, vec!["NewMicrosoftColumn2026"]);
    assert_eq!(r.warnings.len(), 1, "{:?}", r.warnings);
    assert!(r.warnings[0].contains("NewMicrosoftColumn2026"));
}

#[test]
fn findings_are_ordered_for_the_table() {
    let r = analyze(&fixture()).unwrap();
    let order: Vec<&str> = r.findings.iter().map(|f| f.monthly_run_rate.display.as_str()).collect();
    // Costliest first; the sub-threshold line is last regardless of value.
    assert_eq!(order, vec!["$69.00", "$13.80", "$6.00", "$0.06"]);
    assert_eq!(r.findings.iter().map(|f| f.suppressed).collect::<Vec<_>>(), vec![false, false, false, true]);
}

#[test]
fn the_twenty_three_percent_line_renders_completely() {
    let r = analyze(&fixture()).unwrap();
    let f = &r.findings[0];

    assert_eq!(f.customer_name, "Fabrikam, Inc.");
    assert_eq!(f.sku_name, "Project Plan 3");
    assert_eq!(f.rate_label, "+23%");
    assert_eq!(f.effective_unit_price.display, "$36.90");
    assert_eq!(f.base_unit_price.display, "$30.00");
    assert_eq!(f.uplift_per_seat.display, "$6.90");
    assert_eq!(f.billable_quantity, "10");
    assert_eq!(f.monthly_run_rate.display, "$69.00");
    assert_eq!(f.confidence, "1.00");
    assert_eq!(f.evidence_kind, "declared_and_priced");
    assert_eq!(f.remediation_window, "NOW");
    assert!(f.action.starts_with("Cancel or move onto a committed term"));
    // Every row in the table can be traced back to a line in the file.
    assert_eq!(f.record_index, 2);
    assert_eq!(f.charge_start_date.as_deref(), Some("2026-07-01"));
}

#[test]
fn a_ratio_only_finding_says_it_is_inferred() {
    let r = analyze(&fixture()).unwrap();
    let f = r.findings.iter().find(|f| f.subscription_id.ends_with("0010")).unwrap();
    assert_eq!(f.confidence, "0.75");
    assert!(f.confidence_label.contains("Inferred"));
    assert!(f.price_adjustment_description.is_empty());
}

#[test]
fn plain_csv_is_accepted_too() {
    let csv = "CustomerId,SubscriptionId,ChargeType,EffectiveUnitPrice,UnitPrice,\
               BillableQuantity,Currency,ChargeStartDate,ChargeEndDate,TermAndBillingCycle\r\n\
               C1,S1,cycleCharge,'12.30,'10.00,'20,USD,2026-07-01,2026-07-31,\
               \"Monthly term, Monthly billing\"\r\n";
    let r = analyze(csv.as_bytes()).unwrap();
    assert_eq!(r.rows_parsed, 1);
    // 2.30 * 20 = 46.00
    assert_eq!(r.total_est_leak_monthly.display, "$46.00");
    assert_eq!(r.findings[0].rate_label, "+23%");
}

/// A CSV with `rows` data rows, all of them EST +23% lines worth well over the noise threshold.
fn est_csv(rows: usize) -> String {
    let mut s = String::from(
        "CustomerId,SubscriptionId,ChargeType,EffectiveUnitPrice,UnitPrice,\
         BillableQuantity,Currency,ChargeStartDate,ChargeEndDate,TermAndBillingCycle\r\n",
    );
    for i in 0..rows {
        s.push_str(&format!(
            "C{i},S{i},cycleCharge,'12.30,'10.00,'20,USD,2026-07-01,2026-07-31,\
             \"Monthly term, Monthly billing\"\r\n"
        ));
    }
    s
}

fn collect_progress(bytes: &[u8], interval: u64) -> (Vec<Progress>, AnalysisResult) {
    let mut seen = Vec::new();
    let result = analyze_with_progress(bytes, interval, |p| seen.push(*p)).unwrap();
    (seen, result)
}

#[test]
fn progress_reports_every_phase_even_for_a_tiny_file() {
    // 14 rows with a 25k interval: the row trigger never fires, so this is the phase
    // transitions alone. A file too small to tick must still reach a terminal state.
    let (seen, _) = collect_progress(&fixture(), 25_000);
    let phases: Vec<Phase> = seen.iter().map(|p| p.phase).collect();
    assert_eq!(phases, vec![Phase::Reading, Phase::EstDetection, Phase::Finalizing]);

    let last = seen.last().unwrap();
    assert_eq!(last.rows_parsed, 14);
    assert_eq!(last.bytes_processed, last.total_bytes, "must finish at 100%");
}

#[test]
fn progress_ticks_while_parsing_and_never_goes_backwards() {
    let csv = est_csv(1_000);
    let (seen, result) = collect_progress(csv.as_bytes(), 100);

    let parsing: Vec<&Progress> = seen.iter().filter(|p| p.phase == Phase::Parsing).collect();
    assert_eq!(parsing.len(), 10, "1000 rows at one tick per 100");

    for pair in seen.windows(2) {
        let (a, b) = (pair[0], pair[1]);
        assert!(b.rows_parsed >= a.rows_parsed, "rows went backwards: {a:?} -> {b:?}");
        assert!(b.bytes_processed >= a.bytes_processed, "bytes went backwards");
        assert!(b.est_found >= a.est_found, "est count went backwards");
    }

    // The tally the user watched has to land on the number the report states.
    assert_eq!(seen.last().unwrap().rows_parsed, result.rows_parsed);
    assert_eq!(seen.last().unwrap().est_found as usize, result.findings.len());
}

#[test]
fn bytes_processed_is_bounded_by_the_file_size() {
    let csv = est_csv(500);
    let (seen, _) = collect_progress(csv.as_bytes(), 10);
    let total = csv.len() as u64;
    for p in &seen {
        assert_eq!(p.total_bytes, total);
        assert!(p.bytes_processed <= total, "{} > {total}", p.bytes_processed);
    }
    assert_eq!(seen.last().unwrap().bytes_processed, total);
}

#[test]
fn a_zero_interval_asks_only_at_phase_boundaries() {
    let csv = est_csv(500);
    let (seen, _) = collect_progress(csv.as_bytes(), 0);
    assert!(seen.iter().all(|p| p.phase != Phase::Parsing));
    assert_eq!(seen.len(), 3);
}

#[test]
fn progress_does_not_change_the_result() {
    let csv = est_csv(50);
    let quiet = analyze(csv.as_bytes()).unwrap();
    let (_, loud) = collect_progress(csv.as_bytes(), 1);
    assert_eq!(quiet.total_est_leak_monthly.value, loud.total_est_leak_monthly.value);
    assert_eq!(quiet.rows_parsed, loud.rows_parsed);
    assert_eq!(quiet.findings.len(), loud.findings.len());
}

#[test]
fn phase_wire_names() {
    assert_eq!(Phase::Reading.as_str(), "READING");
    assert_eq!(Phase::Parsing.as_str(), "PARSING");
    assert_eq!(Phase::EstDetection.as_str(), "EST_DETECTION");
    assert_eq!(Phase::Finalizing.as_str(), "FINALIZING");
}

#[test]
fn failures_come_back_as_sentences_not_debug_output() {
    assert_eq!(analyze(b"").unwrap_err(), "That file is empty.");

    let err = analyze(b"NotEvenClose,Header\r\n1,2\r\n").unwrap_err();
    assert!(err.starts_with("Could not read that file:"), "{err}");
    assert!(err.contains("EffectiveUnitPrice"), "{err}");
}

#[test]
fn warnings_name_every_doubt() {
    let csv = "CustomerId,SubscriptionId,ChargeType,EffectiveUnitPrice,BillableQuantity,Currency,Extra\r\n\
               C1,S1,cycleCharge,'1,'1,USD,x\r\n\
               C2,S2,cycleCharge,oops,'1,EUR,y\r\n";
    let r = analyze(csv.as_bytes()).unwrap();
    assert_eq!(r.currency, "USD");
    assert_eq!(r.warnings.len(), 4, "{:?}", r.warnings);
    assert!(r.warnings[0].starts_with("This export mixes billing currencies."));
    assert_eq!(
        r.warnings[1],
        "1 cell(s) did not parse. Those fields were treated as absent, so the total below may understate the leak."
    );
    assert_eq!(
        r.warnings[2],
        "This file has 1 column(s) this build does not model (Extra). Nothing was dropped, but a newer schema may carry findings we cannot see yet."
    );
    assert_eq!(
        r.warnings[3],
        "42 optional column(s) are absent from this export. Detection still ran, with less corroboration than usual."
    );
}

#[test]
fn an_unreadable_record_is_counted_as_read_and_failed() {
    let mut bytes = format!("{HEADER}\r\nC1,S1,cycleCharge,'1,'1\r\n").into_bytes();
    bytes.extend_from_slice(b"C2,S2,cycle\xff\xfeCharge,'1,'1\r\n");
    bytes.extend_from_slice(b"C3,S3,cycleCharge,'2,'1\r\n");
    let mut n = 0u64;
    let stats = stream_csv(bytes.as_slice(), &ParseOptions::default(), |_| n += 1).unwrap();
    assert_eq!(n, 2);
    assert_eq!(stats.rows_failed, 1);
    assert_eq!(stats.records_read, 3);
    assert_eq!(stats.records_read, stats.rows_parsed + stats.repeated_headers_skipped + stats.rows_failed);
}

#[test]
fn a_row_limit_of_zero_delivers_no_rows() {
    let csv = format!("{HEADER}\r\nC1,S1,cycleCharge,'1,'1\r\nC2,S2,cycleCharge,'1,'1\r\n");
    let mut n = 0u64;
    let opts = ParseOptions { max_rows: Some(0), ..Default::default() };
    let stats = stream_csv(csv.as_bytes(), &opts, |_| n += 1).unwrap();
    assert_eq!(n, 0);
    assert_eq!(stats.rows_parsed, 0);
    assert_eq!(stats.records_read, 0);
}

#[test]
fn the_gzip_magic_number_decides_the_reader() {
    assert!(recon_core::parser::is_gzip(&[0x1f, 0x8b, 0x08]));
    assert!(!recon_core::parser::is_gzip(&[0x1f]));
    assert!(!recon_core::parser::is_gzip(b"PartnerId,"));
}

#[test]
fn ticks_come_once_per_whole_interval() {
    let csv = est_csv(1_000);
    let (seen, _) = collect_progress(csv.as_bytes(), 300);
    let parsing: Vec<u64> = seen.iter().filter(|p| p.phase == Phase::Parsing).map(|p| p.rows_parsed).collect();
    assert_eq!(parsing, vec![300, 600, 900]);
}
