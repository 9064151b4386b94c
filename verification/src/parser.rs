//! Record-level reading of reconciliation exports.
//!
//! The reader matches columns by normalised name, tolerates extra and reordered columns,
//! skips the header rows that concatenated per-blob exports repeat mid-stream, and
//! downgrades cell-level failures to warnings. Reading bytes, gzip and CSV framing happen
//! outside; this module decides what each record means, one record at a time, so that only
//! one row is ever live.

use vstd::prelude::*;

use crate::date::{opt_date_view, Date, DateView};
use crate::dec::{opt_view, Dec, DecView};
use crate::error::{clipped_value, ReconError, RowError, RowErrorKind};
use crate::numeric::{
    date_cell, date_result_view, decimal_cell, decimal_result_view, parse_date, parse_decimal,
};
use crate::text::{alnum_lower, alnum_lower_exec, chars_of, eq_text, slice_chars, string_from_chars, trim, trim_chars};
use crate::types::{
    col, billing_term_of, charge_kind_of, opt_text, reference_id_of, reference_json_text, BillingTerm,
    ChargeType, ReconRow, ReferenceId, ReferenceIdFields, CANONICAL_COLUMNS, REQUIRED_COLUMNS,
};

verus! {

/// Reader behaviour.
#[derive(Debug, Clone)]
pub struct ParseOptions {
    /// Keep the *values* of columns this build does not know about, per row, in
    /// [`ReconRow::unknown`]. Off by default; the column *names* are always reported.
    pub capture_unknown_columns: bool,
    /// Abort on the first cell-level parse failure instead of recording it and continuing.
    pub strict: bool,
    /// Stop after this many data rows. For previewing a large upload.
    pub max_rows: Option<u64>,
    /// Cap on retained [`RowError`]s so a systematically broken column cannot exhaust
    /// memory. The *count* keeps rising after the cap.
    pub max_retained_row_errors: usize,
}

impl Default for ParseOptions {
    fn default() -> (r: ParseOptions)
        ensures
            !r.capture_unknown_columns,
            !r.strict,
            r.max_rows is None,
            r.max_retained_row_errors == 100,
    {
        ParseOptions { capture_unknown_columns: false, strict: false, max_rows: None, max_retained_row_errors: 100 }
    }
}

/// What the reader saw. Report this to the user: silently dropping rows is how a tool like
/// this loses trust permanently.
#[derive(Debug, Clone)]
pub struct StreamStats {
    /// Data records handed to the caller.
    pub rows_parsed: u64,
    /// Records read from the CSV layer, including ones skipped or failed.
    pub records_read: u64,
    /// Records dropped entirely (unreadable at the CSV level).
    pub rows_failed: u64,
    /// Repeated header rows skipped: an artefact of concatenated per-blob exports.
    pub repeated_headers_skipped: u64,
    /// Header names present in the file that this build does not model. Reported once.
    pub unknown_columns: Vec<String>,
    /// Canonical columns absent from the header (non-required ones only).
    pub missing_columns: Vec<&'static str>,
    /// Cell-level failures, capped at [`ParseOptions::max_retained_row_errors`].
    pub row_errors: Vec<RowError>,
    /// Total cell-level failures, including ones not retained.
    pub row_error_count: u64,
}

impl Default for StreamStats {
    fn default() -> (r: StreamStats)
        ensures
            r.rows_parsed == 0,
            r.records_read == 0,
            r.rows_failed == 0,
            r.repeated_headers_skipped == 0,
            r.unknown_columns@.len() == 0,
            r.missing_columns@.len() == 0,
            r.row_errors@.len() == 0,
            r.row_error_count == 0,
    {
        StreamStats {
            rows_parsed: 0,
            records_read: 0,
            rows_failed: 0,
            repeated_headers_skipped: 0,
            unknown_columns: Vec::new(),
            missing_columns: Vec::new(),
            row_errors: Vec::new(),
            row_error_count: 0,
        }
    }
}

impl StreamStats {
    /// True when the file parsed without a single cell-level complaint.
    pub fn is_clean(&self) -> (r: bool)
        ensures
            r == (self.rows_failed == 0 && self.row_error_count == 0),
    {
        self.rows_failed == 0 && self.row_error_count == 0
    }
}

/// `s` without its leading byte-order marks.
pub open spec fn strip_bom(s: Seq<char>) -> Seq<char>
    decreases s.len(),
{
    if s.len() > 0 && s[0] == '\u{feff}' {
        strip_bom(s.drop_first())
    } else {
        s
    }
}

/// The key a header name is matched on: byte-order marks stripped, then only ASCII letters
/// and digits, lowercased. `\u{feff}PartnerId`, `Partner Id` and `partner_id` agree.
pub open spec fn header_key(raw: Seq<char>) -> Seq<char> {
    alnum_lower(strip_bom(raw))
}

/// Index of the first byte-order-mark-free character of `v`.
fn bom_end(v: &Vec<char>) -> (i: usize)
    ensures
        i <= v.len(),
        strip_bom(v@) == v@.skip(i as int),
{
    let mut i: usize = 0;
    proof {
        assert(v@.skip(0) =~= v@);
    }
    while i < v.len() && v[i] == '\u{feff}'
        invariant
            i <= v.len(),
            strip_bom(v@) == strip_bom(v@.skip(i as int)),
        decreases v.len() - i,
    {
        proof {
            assert(v@.skip(i as int).drop_first() =~= v@.skip(i + 1));
        }
        i = i + 1;
    }
    proof {
        let t = v@.skip(i as int);
        if t.len() > 0 {
            assert(t[0] == v@[i as int]);
        }
    }
    i
}

fn header_key_exec(v: &Vec<char>) -> (r: Vec<char>)
    ensures
        r@ == header_key(v@),
{
    let i = bom_end(v);
    alnum_lower_exec(v, i)
}

/// Header name normalised for matching (see [`header_key`]).
pub fn normalize_header(raw: &str) -> (r: String)
    ensures
        r@ == header_key(raw@),
{
    let v = chars_of(raw);
    let k = header_key_exec(&v);
    string_from_chars(&k)
}

/// The name of canonical column `c`.
pub open spec fn canonical_name(c: int) -> Seq<char> {
    CANONICAL_COLUMNS@[c]@
}

/// The first canonical column, from `c` on, whose name has header key `key`.
pub open spec fn canonical_index_from(key: Seq<char>, c: int) -> Option<int>
    decreases 48 - c,
{
    if c < 0 || c >= 48 {
        None
    } else if header_key(canonical_name(c)) == key {
        Some(c)
    } else {
        canonical_index_from(key, c + 1)
    }
}

/// The canonical column a header key names, if any.
pub open spec fn canonical_index(key: Seq<char>) -> Option<int> {
    canonical_index_from(key, 0)
}

/// Where canonical column `c` is bound among `headers`: the first header naming it.
pub open spec fn binding(headers: Seq<Seq<char>>, c: int) -> Option<int>
    decreases headers.len(),
{
    if headers.len() == 0 {
        None
    } else {
        match binding(headers.drop_last(), c) {
            Some(p) => Some(p),
            None => if canonical_index(header_key(headers.last())) == Some(c) {
                Some(headers.len() - 1)
            } else {
                None
            },
        }
    }
}

/// Headers no canonical column claims (and that are not blank), with their positions and
/// names (byte-order marks stripped), in file order.
pub open spec fn unknown_headers(headers: Seq<Seq<char>>) -> Seq<(int, Seq<char>)>
    decreases headers.len(),
{
    if headers.len() == 0 {
        Seq::empty()
    } else {
        let rest = unknown_headers(headers.drop_last());
        let k = header_key(headers.last());
        if canonical_index(k) is None && k.len() > 0 {
            rest.push((headers.len() - 1, strip_bom(headers.last())))
        } else {
            rest
        }
    }
}

/// The texts of a record.
pub open spec fn texts(v: Seq<String>) -> Seq<Seq<char>> {
    v.map_values(|s: String| s@)
}

/// The view of a column binding table.
pub open spec fn positions(idx: Seq<Option<usize>>) -> Seq<Option<int>> {
    idx.map_values(|p: Option<usize>| match p {
        Some(q) => Some(q as int),
        None => None,
    })
}

/// Header name -> canonical column lookup for one file.
pub struct ColumnMap {
    /// `idx[c]` = position of canonical column `c` in each record.
    pub idx: Vec<Option<usize>>,
    /// `(position, header name as written)` for columns this build does not model.
    pub unknown: Vec<(usize, String)>,
}

impl ColumnMap {
    /// The table is the one `headers` determine.
    pub open spec fn describes(&self, headers: Seq<Seq<char>>) -> bool {
        &&& self.idx@.len() == 48
        &&& forall|c: int| 0 <= c < 48 ==> positions(self.idx@)[c] == binding(headers, c)
        &&& self.unknown@.len() == unknown_headers(headers).len()
        &&& forall|i: int| 0 <= i < self.unknown@.len() ==>
            (self.unknown@[i].0 as int, #[trigger] self.unknown@[i].1@) == unknown_headers(headers)[i]
    }
}

/// `a` and `b` hold the same characters.
fn chars_eq(a: &Vec<char>, b: &Vec<char>) -> (r: bool)
    ensures
        r == (a@ == b@),
{
    if a.len() != b.len() {
        return false;
    }
    let mut i: usize = 0;
    while i < a.len()
        invariant
            i <= a.len() == b.len(),
            forall|k: int| 0 <= k < i ==> a@[k] == b@[k],
        decreases a.len() - i,
    {
        if a[i] != b[i] {
            return false;
        }
        i = i + 1;
    }
    proof {
        assert(a@ =~= b@);
    }
    true
}

/// Header keys of the canonical column names, in canonical order.
fn canonical_keys() -> (keys: Vec<Vec<char>>)
    ensures
        keys@.len() == 48,
        forall|c: int| 0 <= c < 48 ==> #[trigger] keys@[c]@ == header_key(canonical_name(c)),
{
    let mut keys: Vec<Vec<char>> = Vec::new();
    let mut c: usize = 0;
    while c < 48
        invariant
            c <= 48,
            keys@.len() == c,
            forall|k: int| 0 <= k < c ==> #[trigger] keys@[k]@ == header_key(canonical_name(k)),
        decreases 48 - c,
    {
        let name: &str = CANONICAL_COLUMNS[c];
        let v = chars_of(name);
        keys.push(header_key_exec(&v));
        c = c + 1;
    }
    keys
}

/// The canonical column a header key names (see [`canonical_index`]).
fn find_canonical(keys: &Vec<Vec<char>>, key: &Vec<char>) -> (r: Option<usize>)
    requires
        keys@.len() == 48,
        forall|c: int| 0 <= c < 48 ==> #[trigger] keys@[c]@ == header_key(canonical_name(c)),
    ensures
        (match r {
            Some(c) => Some(c as int),
            None => None,
        }) == canonical_index(key@),
        r matches Some(c) ==> c < 48,
{
    let mut c: usize = 0;
    while c < 48
        invariant
            c <= 48,
            keys@.len() == 48,
            forall|k: int| 0 <= k < 48 ==> #[trigger] keys@[k]@ == header_key(canonical_name(k)),
            canonical_index(key@) == canonical_index_from(key@, c as int),
        decreases 48 - c,
    {
        if chars_eq(&keys[c], key) {
            return Some(c);
        }
        c = c + 1;
    }
    None
}

/// Names of the required columns that `headers` do not bind, in the order of
/// [`REQUIRED_COLUMNS`], over its first `k` entries.
pub open spec fn missing_required_upto(headers: Seq<Seq<char>>, k: int) -> Seq<Seq<char>>
    decreases k,
{
    if k <= 0 {
        Seq::empty()
    } else {
        let c = REQUIRED_COLUMNS@[k - 1] as int;
        let rest = missing_required_upto(headers, k - 1);
        if binding(headers, c) is None {
            rest.push(canonical_name(c))
        } else {
            rest
        }
    }
}

/// Names of the required columns that `headers` do not bind.
pub open spec fn missing_required(headers: Seq<Seq<char>>) -> Seq<Seq<char>> {
    missing_required_upto(headers, 5)
}

/// How reading a header row ends.
pub open spec fn header_outcome_ok(headers: Seq<Seq<char>>) -> bool {
    headers.len() > 0 && missing_required(headers).len() == 0
}

impl ColumnMap {
    /// Bind the header row. Fails when the header is empty or lacks a required column.
    pub fn build(header: &Vec<String>) -> (r: Result<ColumnMap, ReconError>)
        ensures
            header@.len() == 0 ==> r matches Err(ReconError::EmptyHeader),
            header@.len() > 0 && missing_required(texts(header@)).len() > 0 ==>
                (r matches Err(ReconError::MissingRequiredColumns(names)) && texts(names@) == missing_required(texts(header@))),
            header_outcome_ok(texts(header@)) ==> (r matches Ok(m) && m.describes(texts(header@))),
    {
        let ghost hs = texts(header@);
        if header.len() == 0 {
            return Err(ReconError::EmptyHeader);
        }
        let keys = canonical_keys();
        let mut idx: Vec<Option<usize>> = Vec::new();
        let mut c: usize = 0;
        while c < 48
            invariant
                c <= 48,
                idx@.len() == c,
                forall|k: int| 0 <= k < c ==> idx@[k] is None,
            decreases 48 - c,
        {
            idx.push(None);
            c = c + 1;
        }
        let mut unknown: Vec<(usize, String)> = Vec::new();
        let mut pos: usize = 0;
        proof {
            assert(hs.take(0) =~= Seq::<Seq<char>>::empty());
        }
        while pos < header.len()
            invariant
                pos <= header.len(),
                hs == texts(header@),
                keys@.len() == 48,
                forall|k: int| 0 <= k < 48 ==> #[trigger] keys@[k]@ == header_key(canonical_name(k)),
                idx@.len() == 48,
                forall|k: int| 0 <= k < 48 ==> positions(idx@)[k] == binding(hs.take(pos as int), k),
                unknown@.len() == unknown_headers(hs.take(pos as int)).len(),
                forall|i: int| 0 <= i < unknown@.len() ==>
                    (unknown@[i].0 as int, #[trigger] unknown@[i].1@) == unknown_headers(hs.take(pos as int))[i],
            decreases header.len() - pos,
        {
            let raw = chars_of(header[pos].as_str());
            let key = header_key_exec(&raw);
            let found = find_canonical(&keys, &key);
            let ghost prev_idx = idx@;
            let ghost prev_unknown = unknown@;
            proof {
                assert(hs.take(pos + 1).drop_last() =~= hs.take(pos as int));
                assert(hs.take(pos + 1).last() == raw@);
            }
            match found {
                Some(cc) => {
                    if idx[cc].is_none() {
                        idx.set(cc, Some(pos));
                    }
                },
                None => {
                    if key.len() > 0 {
                        let b = bom_end(&raw);
                        let name_chars = slice_chars(&raw, b, raw.len());
                        proof {
                            assert(name_chars@ =~= raw@.skip(b as int));
                        }
                        unknown.push((pos, string_from_chars(&name_chars)));
                    }
                },
            }
            proof {
                assert forall|k: int| 0 <= k < 48 implies positions(idx@)[k] == binding(hs.take(pos + 1), k) by {
                    assert(positions(prev_idx)[k] == binding(hs.take(pos as int), k));
                }
                let uh0 = unknown_headers(hs.take(pos as int));
                let uh1 = unknown_headers(hs.take(pos + 1));
                if canonical_index(key@) is None && key@.len() > 0 {
                    assert(uh1 == uh0.push((pos as int, strip_bom(raw@))));
                    assert(unknown@.len() == prev_unknown.len() + 1);
                    assert(unknown@.last().0 == pos);
                    assert(unknown@.last().1@ == strip_bom(raw@));
                } else {
                    assert(uh1 == uh0);
                    assert(unknown@ == prev_unknown);
                }
                assert forall|i: int| 0 <= i < unknown@.len() implies
                    (unknown@[i].0 as int, #[trigger] unknown@[i].1@) == uh1[i] by {
                    if i < prev_unknown.len() {
                        assert(unknown@[i] == prev_unknown[i]);
                        assert((prev_unknown[i].0 as int, prev_unknown[i].1@) == uh0[i]);
                    }
                }
            }
            pos = pos + 1;
        }
        proof {
            assert(hs.take(header.len() as int) =~= hs);
        }
        let map = ColumnMap { idx, unknown };
        let mut missing: Vec<String> = Vec::new();
        let mut k: usize = 0;
        while k < 5
            invariant
                k <= 5,
                hs == texts(header@),
                map.describes(hs),
                texts(missing@) == missing_required_upto(hs, k as int),
            decreases 5 - k,
        {
            let c = REQUIRED_COLUMNS[k];
            proof {
                assert(0 <= c < 48) by {
                    assert(REQUIRED_COLUMNS@[k as int] < 48);
                }
            }
            if map.idx[c].is_none() {
                let name: &str = CANONICAL_COLUMNS[c];
                missing.push(string_from_chars(&chars_of(name)));
                proof {
                    assert(texts(missing@) =~= missing_required_upto(hs, k as int).push(canonical_name(c as int)));
                }
            }
            k = k + 1;
        }
        if missing.len() > 0 {
            return Err(ReconError::MissingRequiredColumns(missing));
        }
        Ok(map)
    }
}

/// The text of canonical column `c` in a record: trimmed, empty when the column is not
/// bound or the record is too short.
pub open spec fn cell_text(pos: Seq<Option<int>>, rec: Seq<Seq<char>>, c: int) -> Seq<char> {
    match pos[c] {
        Some(p) => if 0 <= p < rec.len() { trim(rec[p]) } else { Seq::empty() },
        None => Seq::empty(),
    }
}

/// The value of a decimal cell, absent when the cell failed to parse.
pub open spec fn decimal_or_none(cell: Seq<char>) -> Option<DecView> {
    match decimal_cell(cell) {
        Ok(v) => v,
        Err(_) => None,
    }
}

/// The value of a date cell, absent when the cell failed to parse.
pub open spec fn date_or_none(cell: Seq<char>) -> Option<DateView> {
    match date_cell(cell) {
        Ok(v) => v,
        Err(_) => None,
    }
}

/// The view of a [`RowError`]: `(record_index, column, value, kind)`.
pub open spec fn error_view(e: RowError) -> (int, Seq<char>, Seq<char>, RowErrorKind) {
    (e.record_index as int, e.column@, e.value@, e.kind)
}

/// The views of a list of row errors.
pub open spec fn error_views(es: Seq<RowError>) -> Seq<(int, Seq<char>, Seq<char>, RowErrorKind)> {
    es.map_values(|e: RowError| error_view(e))
}

/// The error recorded for canonical column `c` of record `record_index` when `failed`.
pub open spec fn failure(
    record_index: int,
    pos: Seq<Option<int>>,
    rec: Seq<Seq<char>>,
    c: int,
    kind: RowErrorKind,
    failed: bool,
) -> Seq<(int, Seq<char>, Seq<char>, RowErrorKind)> {
    if failed {
        seq![(record_index, canonical_name(c), clipped_value(cell_text(pos, rec, c)), kind)]
    } else {
        Seq::empty()
    }
}

/// A date cell failure for column `c`.
pub open spec fn date_failure(record_index: int, pos: Seq<Option<int>>, rec: Seq<Seq<char>>, c: int) -> Seq<(int, Seq<char>, Seq<char>, RowErrorKind)> {
    failure(record_index, pos, rec, c, RowErrorKind::Date, date_cell(cell_text(pos, rec, c)) is Err)
}

/// A decimal cell failure for column `c`.
pub open spec fn decimal_failure(record_index: int, pos: Seq<Option<int>>, rec: Seq<Seq<char>>, c: int) -> Seq<(int, Seq<char>, Seq<char>, RowErrorKind)> {
    failure(record_index, pos, rec, c, RowErrorKind::Decimal, decimal_cell(cell_text(pos, rec, c)) is Err)
}

/// The failures of the four date cells, in the order they are read.
pub open spec fn date_failures(record_index: int, pos: Seq<Option<int>>, rec: Seq<Seq<char>>) -> Seq<(int, Seq<char>, Seq<char>, RowErrorKind)> {
    date_failure(record_index, pos, rec, col::SUBSCRIPTION_START_DATE as int)
    + date_failure(record_index, pos, rec, col::SUBSCRIPTION_END_DATE as int)
    + date_failure(record_index, pos, rec, col::CHARGE_START_DATE as int)
    + date_failure(record_index, pos, rec, col::CHARGE_END_DATE as int)
}

/// The failures of the eight decimal cells, in the order they are read.
pub open spec fn decimal_failures(record_index: int, pos: Seq<Option<int>>, rec: Seq<Seq<char>>) -> Seq<(int, Seq<char>, Seq<char>, RowErrorKind)> {
    decimal_failure(record_index, pos, rec, col::UNIT_PRICE as int)
    + decimal_failure(record_index, pos, rec, col::EFFECTIVE_UNIT_PRICE as int)
    + decimal_failure(record_index, pos, rec, col::QUANTITY as int)
    + decimal_failure(record_index, pos, rec, col::BILLABLE_QUANTITY as int)
    + decimal_failure(record_index, pos, rec, col::SUBTOTAL as int)
    + decimal_failure(record_index, pos, rec, col::TAX_TOTAL as int)
    + decimal_failure(record_index, pos, rec, col::TOTAL as int)
    + decimal_failure(record_index, pos, rec, col::PC_TO_BC_EXCHANGE_RATE as int)
}

/// Every cell failure of a record, in the order the cells are read: `ReferenceId` first,
/// then the four dates, then the eight decimals.
pub open spec fn row_failures(
    record_index: int,
    pos: Seq<Option<int>>,
    rec: Seq<Seq<char>>,
    decoded: Option<ReferenceIdFields>,
) -> Seq<(int, Seq<char>, Seq<char>, RowErrorKind)> {
    failure(record_index, pos, rec, col::REFERENCE_ID as int, RowErrorKind::ReferenceIdJson,
        reference_id_of(cell_text(pos, rec, col::REFERENCE_ID as int), decoded).1)
    + date_failures(record_index, pos, rec)
    + decimal_failures(record_index, pos, rec)
}

impl ColumnMap {
    /// The table is well formed: 48 entries.
    pub open spec fn wf(&self) -> bool {
        self.idx@.len() == 48
    }

    /// Canonical columns absent from the header, in canonical order.
    pub fn missing(&self) -> (r: Vec<&'static str>)
        requires
            self.wf(),
        ensures
            r@.map_values(|s: &str| s@) == Seq::new(48, |c: int| c).filter(|c: int| positions(self.idx@)[c] is None).map_values(|c: int| canonical_name(c)),
    {
        let mut r: Vec<&'static str> = Vec::new();
        let mut c: usize = 0;
        let ghost all = Seq::new(48, |c: int| c);
        let ghost pred = |c: int| positions(self.idx@)[c] is None;
        proof {
            assert(all.take(0) =~= Seq::<int>::empty());
        }
        while c < 48
            invariant
                c <= 48,
                self.idx@.len() == 48,
                all == Seq::new(48, |c: int| c),
                pred == (|c: int| positions(self.idx@)[c] is None),
                r@.map_values(|s: &str| s@) == all.take(c as int).filter(pred).map_values(|c: int| canonical_name(c)),
            decreases 48 - c,
        {
            proof {
                assert(all.take(c + 1).drop_last() =~= all.take(c as int));
                reveal_with_fuel(Seq::filter, 1);
            }
            if self.idx[c].is_none() {
                let name: &'static str = CANONICAL_COLUMNS[c];
                r.push(name);
                proof {
                    assert(r@.map_values(|s: &str| s@) =~= all.take(c as int).filter(pred).map_values(|c: int| canonical_name(c)).push(canonical_name(c as int)));
                    assert(all.take(c + 1).filter(pred) =~= all.take(c as int).filter(pred).push(c as int));
                    assert(all.take(c + 1).filter(pred).map_values(|c: int| canonical_name(c)) =~= all.take(c as int).filter(pred).map_values(|c: int| canonical_name(c)).push(canonical_name(c as int)));
                }
            } else {
                proof {
                    assert(all.take(c + 1).filter(pred) =~= all.take(c as int).filter(pred));
                }
            }
            c = c + 1;
        }
        proof {
            assert(all.take(48) =~= all);
        }
        r
    }

    /// The characters of canonical column `c` in `rec` (see [`cell_text`]).
    pub fn cell(&self, rec: &Vec<String>, c: usize) -> (r: Vec<char>)
        requires
            self.wf(),
            c < 48,
        ensures
            r@ == cell_text(positions(self.idx@), texts(rec@), c as int),
    {
        match self.idx[c] {
            Some(p) => {
                if p < rec.len() {
                    let v = chars_of(rec[p].as_str());
                    trim_chars(&v)
                } else {
                    Vec::new()
                }
            },
            None => Vec::new(),
        }
    }

    /// The text of canonical column `c` in `rec` (see [`cell_text`]).
    pub fn get(&self, rec: &Vec<String>, c: usize) -> (r: String)
        requires
            self.wf(),
            c < 48,
        ensures
            r@ == cell_text(positions(self.idx@), texts(rec@), c as int),
    {
        let v = self.cell(rec, c);
        string_from_chars(&v)
    }
}

/// The raw (untrimmed) text at position `p` of a record, empty past its end.
pub open spec fn raw_at(rec: Seq<Seq<char>>, p: int) -> Seq<char> {
    if 0 <= p < rec.len() { rec[p] } else { Seq::empty() }
}

/// `row` is what record `rec` reads as under binding `pos`: every text field is its trimmed
/// cell, every date and decimal its parsed cell (absent when the cell failed), the charge
/// type, term and reference id parsed from theirs, and the unknown columns' raw values kept
/// exactly when `capture` is set.
pub open spec fn row_matches(
    row: ReconRow,
    record_index: int,
    pos: Seq<Option<int>>,
    rec: Seq<Seq<char>>,
    decoded: Option<ReferenceIdFields>,
    unknown: Seq<(usize, String)>,
    capture: bool,
) -> bool {
    &&& row.record_index == record_index
    &&& row.partner_id@ == cell_text(pos, rec, col::PARTNER_ID as int)
    &&& row.customer_id@ == cell_text(pos, rec, col::CUSTOMER_ID as int)
    &&& row.customer_name@ == cell_text(pos, rec, col::CUSTOMER_NAME as int)
    &&& row.customer_domain_name@ == cell_text(pos, rec, col::CUSTOMER_DOMAIN_NAME as int)
    &&& row.customer_country@ == cell_text(pos, rec, col::CUSTOMER_COUNTRY as int)
    &&& row.invoice_number@ == cell_text(pos, rec, col::INVOICE_NUMBER as int)
    &&& row.order_id@ == cell_text(pos, rec, col::ORDER_ID as int)
    &&& row.product_id@ == cell_text(pos, rec, col::PRODUCT_ID as int)
    &&& row.sku_id@ == cell_text(pos, rec, col::SKU_ID as int)
    &&& row.availability_id@ == cell_text(pos, rec, col::AVAILABILITY_ID as int)
    &&& row.sku_name@ == cell_text(pos, rec, col::SKU_NAME as int)
    &&& row.product_name@ == cell_text(pos, rec, col::PRODUCT_NAME as int)
    &&& row.subscription_id@ == cell_text(pos, rec, col::SUBSCRIPTION_ID as int)
    &&& row.subscription_description@ == cell_text(pos, rec, col::SUBSCRIPTION_DESCRIPTION as int)
    &&& row.term_and_billing_cycle@ == cell_text(pos, rec, col::TERM_AND_BILLING_CYCLE as int)
    &&& row.unit_type@ == cell_text(pos, rec, col::UNIT_TYPE as int)
    &&& row.currency@ == cell_text(pos, rec, col::CURRENCY as int)
    &&& row.pricing_currency@ == cell_text(pos, rec, col::PRICING_CURRENCY as int)
    &&& row.price_adjustment_description@ == cell_text(pos, rec, col::PRICE_ADJUSTMENT_DESCRIPTION as int)
    &&& row.promotion_id@ == cell_text(pos, rec, col::PROMOTION_ID as int)
    &&& row.product_category@ == cell_text(pos, rec, col::PRODUCT_CATEGORY as int)
    &&& opt_date_view(row.subscription_start_date) == date_or_none(cell_text(pos, rec, col::SUBSCRIPTION_START_DATE as int))
    &&& opt_date_view(row.subscription_end_date) == date_or_none(cell_text(pos, rec, col::SUBSCRIPTION_END_DATE as int))
    &&& opt_date_view(row.charge_start_date) == date_or_none(cell_text(pos, rec, col::CHARGE_START_DATE as int))
    &&& opt_date_view(row.charge_end_date) == date_or_none(cell_text(pos, rec, col::CHARGE_END_DATE as int))
    &&& opt_view(row.unit_price) == decimal_or_none(cell_text(pos, rec, col::UNIT_PRICE as int))
    &&& opt_view(row.effective_unit_price) == decimal_or_none(cell_text(pos, rec, col::EFFECTIVE_UNIT_PRICE as int))
    &&& opt_view(row.quantity) == decimal_or_none(cell_text(pos, rec, col::QUANTITY as int))
    &&& opt_view(row.billable_quantity) == decimal_or_none(cell_text(pos, rec, col::BILLABLE_QUANTITY as int))
    &&& opt_view(row.subtotal) == decimal_or_none(cell_text(pos, rec, col::SUBTOTAL as int))
    &&& opt_view(row.tax_total) == decimal_or_none(cell_text(pos, rec, col::TAX_TOTAL as int))
    &&& opt_view(row.total) == decimal_or_none(cell_text(pos, rec, col::TOTAL as int))
    &&& opt_view(row.pc_to_bc_exchange_rate) == decimal_or_none(cell_text(pos, rec, col::PC_TO_BC_EXCHANGE_RATE as int))
    &&& row.charge_type@ == charge_kind_of(cell_text(pos, rec, col::CHARGE_TYPE as int))
    &&& row.term == billing_term_of(cell_text(pos, rec, col::TERM_AND_BILLING_CYCLE as int))
    &&& row.reference_id@ == reference_id_of(cell_text(pos, rec, col::REFERENCE_ID as int), decoded).0
    &&& row.unknown@.len() == (if capture { unknown.len() } else { 0 })
    &&& forall|i: int| 0 <= i < row.unknown@.len() ==>
        (#[trigger] row.unknown@[i].0@, row.unknown@[i].1@) == (unknown[i].1@, raw_at(rec, unknown[i].0 as int))
}

impl ColumnMap {
    /// Parse decimal column `c`, recording a failure in `errors`.
    fn decimal_field(&self, rec: &Vec<String>, c: usize, record_index: u64, errors: &mut Vec<RowError>) -> (r: Option<Dec>)
        requires
            self.wf(),
            c < 48,
        ensures
            opt_view(r) == decimal_or_none(cell_text(positions(self.idx@), texts(rec@), c as int)),
            error_views(final(errors)@) == error_views(old(errors)@) + decimal_failure(record_index as int, positions(self.idx@), texts(rec@), c as int),
    {
        let raw = self.get(rec, c);
        match parse_decimal(raw.as_str()) {
            Ok(v) => v,
            Err(_) => {
                let e = RowError::new(record_index, CANONICAL_COLUMNS[c], raw.as_str(), RowErrorKind::Decimal);
                errors.push(e);
                proof {
                    assert(error_views(errors@) =~= error_views(old(errors)@) + decimal_failure(record_index as int, positions(self.idx@), texts(rec@), c as int));
                }
                None
            },
        }
    }

    /// Parse date column `c`, recording a failure in `errors`.
    fn date_field(&self, rec: &Vec<String>, c: usize, record_index: u64, errors: &mut Vec<RowError>) -> (r: Option<Date>)
        requires
            self.wf(),
            c < 48,
        ensures
            opt_date_view(r) == date_or_none(cell_text(positions(self.idx@), texts(rec@), c as int)),
            error_views(final(errors)@) == error_views(old(errors)@) + date_failure(record_index as int, positions(self.idx@), texts(rec@), c as int),
    {
        let raw = self.get(rec, c);
        match parse_date(raw.as_str()) {
            Ok(v) => v,
            Err(_) => {
                let e = RowError::new(record_index, CANONICAL_COLUMNS[c], raw.as_str(), RowErrorKind::Date);
                errors.push(e);
                proof {
                    assert(error_views(errors@) =~= error_views(old(errors)@) + date_failure(record_index as int, positions(self.idx@), texts(rec@), c as int));
                }
                None
            },
        }
    }
}

impl ColumnMap {
    /// `(header, value)` for every unknown column of `rec`, the value verbatim.
    fn unknown_values(&self, rec: &Vec<String>) -> (r: Vec<(String, String)>)
        ensures
            r@.len() == self.unknown@.len(),
            forall|i: int| 0 <= i < r@.len() ==>
                (#[trigger] r@[i].0@, r@[i].1@) == (self.unknown@[i].1@, raw_at(texts(rec@), self.unknown@[i].0 as int)),
    {
        let mut out: Vec<(String, String)> = Vec::new();
        let mut i: usize = 0;
        while i < self.unknown.len()
            invariant
                i <= self.unknown.len(),
                out@.len() == i,
                forall|k: int| 0 <= k < i ==>
                    (#[trigger] out@[k].0@, out@[k].1@) == (self.unknown@[k].1@, raw_at(texts(rec@), self.unknown@[k].0 as int)),
            decreases self.unknown.len() - i,
        {
            let p = self.unknown[i].0;
            let name = self.unknown[i].1.clone();
            let value = if p < rec.len() { rec[p].clone() } else { String::new() };
            out.push((name, value));
            i = i + 1;
        }
        out
    }
}

impl ColumnMap {
    /// The four date cells of `rec`, failures appended to `errors`.
    #[verifier::spinoff_prover]
    fn date_fields(&self, rec: &Vec<String>, record_index: u64, errors: &mut Vec<RowError>)
        -> (r: (Option<Date>, Option<Date>, Option<Date>, Option<Date>))
        requires
            self.wf(),
        ensures
            opt_date_view(r.0) == date_or_none(cell_text(positions(self.idx@), texts(rec@), col::SUBSCRIPTION_START_DATE as int)),
            opt_date_view(r.1) == date_or_none(cell_text(positions(self.idx@), texts(rec@), col::SUBSCRIPTION_END_DATE as int)),
            opt_date_view(r.2) == date_or_none(cell_text(positions(self.idx@), texts(rec@), col::CHARGE_START_DATE as int)),
            opt_date_view(r.3) == date_or_none(cell_text(positions(self.idx@), texts(rec@), col::CHARGE_END_DATE as int)),
            error_views(final(errors)@) == error_views(old(errors)@) + date_failures(record_index as int, positions(self.idx@), texts(rec@)),
    {
        let a = self.date_field(rec, col::SUBSCRIPTION_START_DATE, record_index, errors);
        let b = self.date_field(rec, col::SUBSCRIPTION_END_DATE, record_index, errors);
        let c = self.date_field(rec, col::CHARGE_START_DATE, record_index, errors);
        let d = self.date_field(rec, col::CHARGE_END_DATE, record_index, errors);
        proof {
            assert(error_views(errors@) =~= error_views(old(errors)@) + date_failures(record_index as int, positions(self.idx@), texts(rec@)));
        }
        (a, b, c, d)
    }

    /// The eight decimal cells of `rec`, failures appended to `errors`.
    #[verifier::rlimit(60)]
    #[verifier::spinoff_prover]
    fn decimal_fields(&self, rec: &Vec<String>, record_index: u64, errors: &mut Vec<RowError>) -> (r: Vec<Option<Dec>>)
        requires
            self.wf(),
        ensures
            r@.len() == 8,
            opt_view(r@[0]) == decimal_or_none(cell_text(positions(self.idx@), texts(rec@), col::UNIT_PRICE as int)),
            opt_view(r@[1]) == decimal_or_none(cell_text(positions(self.idx@), texts(rec@), col::EFFECTIVE_UNIT_PRICE as int)),
            opt_view(r@[2]) == decimal_or_none(cell_text(positions(self.idx@), texts(rec@), col::QUANTITY as int)),
            opt_view(r@[3]) == decimal_or_none(cell_text(positions(self.idx@), texts(rec@), col::BILLABLE_QUANTITY as int)),
            opt_view(r@[4]) == decimal_or_none(cell_text(positions(self.idx@), texts(rec@), col::SUBTOTAL as int)),
            opt_view(r@[5]) == decimal_or_none(cell_text(positions(self.idx@), texts(rec@), col::TAX_TOTAL as int)),
            opt_view(r@[6]) == decimal_or_none(cell_text(positions(self.idx@), texts(rec@), col::TOTAL as int)),
            opt_view(r@[7]) == decimal_or_none(cell_text(positions(self.idx@), texts(rec@), col::PC_TO_BC_EXCHANGE_RATE as int)),
            error_views(final(errors)@) == error_views(old(errors)@) + decimal_failures(record_index as int, positions(self.idx@), texts(rec@)),
    {
        let mut r: Vec<Option<Dec>> = Vec::new();
        r.push(self.decimal_field(rec, col::UNIT_PRICE, record_index, errors));
        r.push(self.decimal_field(rec, col::EFFECTIVE_UNIT_PRICE, record_index, errors));
        r.push(self.decimal_field(rec, col::QUANTITY, record_index, errors));
        r.push(self.decimal_field(rec, col::BILLABLE_QUANTITY, record_index, errors));
        r.push(self.decimal_field(rec, col::SUBTOTAL, record_index, errors));
        r.push(self.decimal_field(rec, col::TAX_TOTAL, record_index, errors));
        r.push(self.decimal_field(rec, col::TOTAL, record_index, errors));
        r.push(self.decimal_field(rec, col::PC_TO_BC_EXCHANGE_RATE, record_index, errors));
        proof {
            assert(error_views(errors@) =~= error_views(old(errors)@) + decimal_failures(record_index as int, positions(self.idx@), texts(rec@)));
        }
        r
    }
}

/// Read record `rec` as a row. Cell failures are appended to `errors` in the order the
/// cells are read (see [`row_failures`]); `decoded` is the JSON decoding of the record's
/// `ReferenceId` text, when it has one.
#[verifier::rlimit(40)]
#[verifier::spinoff_prover]
fn build_row(
    map: &ColumnMap,
    rec: &Vec<String>,
    record_index: u64,
    decoded: Option<ReferenceIdFields>,
    capture_unknown: bool,
    errors: &mut Vec<RowError>,
) -> (row: ReconRow)
    requires
        map.wf(),
    ensures
        row_matches(row, record_index as int, positions(map.idx@), texts(rec@), decoded, map.unknown@, capture_unknown),
        error_views(final(errors)@) == error_views(old(errors)@) + row_failures(record_index as int, positions(map.idx@), texts(rec@), decoded),
{
    let ghost pos = positions(map.idx@);
    let ghost rs = texts(rec@);
    let ghost e0 = error_views(errors@);

    let term_and_billing_cycle = map.get(rec, col::TERM_AND_BILLING_CYCLE);
    let term = BillingTerm::parse(term_and_billing_cycle.as_str());

    let reference_raw = map.get(rec, col::REFERENCE_ID);
    let (reference_id, json_failed) = ReferenceId::parse(reference_raw.as_str(), decoded);
    if json_failed {
        errors.push(RowError::new(record_index, CANONICAL_COLUMNS[col::REFERENCE_ID], reference_raw.as_str(), RowErrorKind::ReferenceIdJson));
    }
    let ghost e1 = error_views(errors@);
    let ghost rf = failure(record_index as int, pos, rs, col::REFERENCE_ID as int, RowErrorKind::ReferenceIdJson, json_failed);
    proof {
        assert(e1 =~= e0 + rf);
    }

    let unknown = if capture_unknown { map.unknown_values(rec) } else { Vec::new() };

    let dates = map.date_fields(rec, record_index, errors);
    let ghost e2 = error_views(errors@);
    let charge_type_text = map.get(rec, col::CHARGE_TYPE);
    let charge_type = ChargeType::parse(charge_type_text.as_str());
    let decs = map.decimal_fields(rec, record_index, errors);
    proof {
        assert(e2 == e0 + rf + date_failures(record_index as int, pos, rs));
        assert(error_views(errors@) =~= e0 + row_failures(record_index as int, pos, rs, decoded));
    }

    ReconRow {
        record_index,
        partner_id: map.get(rec, col::PARTNER_ID),
        customer_id: map.get(rec, col::CUSTOMER_ID),
        customer_name: map.get(rec, col::CUSTOMER_NAME),
        customer_domain_name: map.get(rec, col::CUSTOMER_DOMAIN_NAME),
        customer_country: map.get(rec, col::CUSTOMER_COUNTRY),
        invoice_number: map.get(rec, col::INVOICE_NUMBER),
        order_id: map.get(rec, col::ORDER_ID),
        product_id: map.get(rec, col::PRODUCT_ID),
        sku_id: map.get(rec, col::SKU_ID),
        availability_id: map.get(rec, col::AVAILABILITY_ID),
        sku_name: map.get(rec, col::SKU_NAME),
        product_name: map.get(rec, col::PRODUCT_NAME),
        subscription_id: map.get(rec, col::SUBSCRIPTION_ID),
        subscription_description: map.get(rec, col::SUBSCRIPTION_DESCRIPTION),
        subscription_start_date: dates.0,
        subscription_end_date: dates.1,
        charge_start_date: dates.2,
        charge_end_date: dates.3,
        charge_type,
        term_and_billing_cycle,
        term,
        unit_price: decs[0],
        effective_unit_price: decs[1],
        quantity: decs[2],
        billable_quantity: decs[3],
        subtotal: decs[4],
        tax_total: decs[5],
        total: decs[6],
        unit_type: map.get(rec, col::UNIT_TYPE),
        currency: map.get(rec, col::CURRENCY),
        pricing_currency: map.get(rec, col::PRICING_CURRENCY),
        pc_to_bc_exchange_rate: decs[7],
        price_adjustment_description: map.get(rec, col::PRICE_ADJUSTMENT_DESCRIPTION),
        promotion_id: map.get(rec, col::PROMOTION_ID),
        product_category: map.get(rec, col::PRODUCT_CATEGORY),
        reference_id,
        unknown,
    }
}

/// The first field of the record names the `PartnerId` column: a header row repeated
/// mid-stream by concatenated per-blob exports.
pub open spec fn repeats_header(rec: Seq<Seq<char>>) -> bool {
    rec.len() > 0 && header_key(rec[0]) == header_key(canonical_name(col::PARTNER_ID as int))
}

/// Whether record `rec` is a header row repeated mid-stream (see [`repeats_header`]).
pub fn is_repeated_header(rec: &Vec<String>) -> (r: bool)
    ensures
        r == repeats_header(texts(rec@)),
{
    if rec.len() == 0 {
        return false;
    }
    let first = chars_of(rec[0].as_str());
    let key = header_key_exec(&first);
    let partner = chars_of(CANONICAL_COLUMNS[col::PARTNER_ID]);
    let partner_key = header_key_exec(&partner);
    chars_eq(&key, &partner_key)
}

/// The retained error list after `new` failures arrive: appended while fewer than `cap`
/// are held, the rest only counted.
pub open spec fn retained<E>(kept: Seq<E>, new: Seq<E>, cap: int) -> Seq<E>
    decreases new.len(),
{
    if new.len() == 0 {
        kept
    } else if kept.len() < cap {
        retained(kept.push(new[0]), new.drop_first(), cap)
    } else {
        retained(kept, new.drop_first(), cap)
    }
}

/// Filtering by two predicates that agree on every element gives the same result.
proof fn lemma_filter_agrees<A>(s: Seq<A>, p: spec_fn(A) -> bool, q: spec_fn(A) -> bool)
    requires
        forall|i: int| 0 <= i < s.len() ==> p(s[i]) == q(s[i]),
    ensures
        s.filter(p) == s.filter(q),
    decreases s.len(),
{
    reveal(Seq::filter);
    if s.len() > 0 {
        assert forall|i: int| 0 <= i < s.drop_last().len() implies p(s.drop_last()[i]) == q(s.drop_last()[i]) by {
            assert(s.drop_last()[i] == s[i]);
        }
        lemma_filter_agrees(s.drop_last(), p, q);
        assert(p(s[s.len() - 1]) == q(s[s.len() - 1]));
    }
}

/// Reading one file, one record at a time. Reading bytes, decompressing and splitting CSV
/// records happen outside; each record read is handed in here and comes back as a row,
/// a skip or a fatal error.
pub struct RowStream {
    /// Column bindings of the header row.
    pub map: ColumnMap,
    pub options: ParseOptions,
    /// Running statistics.
    pub stats: StreamStats,
}

impl RowStream {
    /// The stream is well formed: a full binding table, and counts that hang together.
    pub open spec fn wf(&self) -> bool {
        &&& self.map.wf()
        &&& self.stats.records_read == self.stats.rows_parsed + self.stats.repeated_headers_skipped + self.stats.rows_failed
    }

    /// Start reading a file with header row `header`. Fails exactly as
    /// [`ColumnMap::build`] does; otherwise every count is zero, the unknown header names
    /// are listed in file order and the absent canonical columns in canonical order.
    pub fn start(header: &Vec<String>, options: ParseOptions) -> (r: Result<RowStream, ReconError>)
        ensures
            header@.len() == 0 ==> r matches Err(ReconError::EmptyHeader),
            header@.len() > 0 && missing_required(texts(header@)).len() > 0 ==>
                (r matches Err(ReconError::MissingRequiredColumns(names)) && texts(names@) == missing_required(texts(header@))),
            header_outcome_ok(texts(header@)) ==> (r matches Ok(st) && {
                &&& st.wf()
                &&& st.map.describes(texts(header@))
                &&& st.options == options
                &&& st.stats.rows_parsed == 0
                &&& st.stats.records_read == 0
                &&& st.stats.rows_failed == 0
                &&& st.stats.repeated_headers_skipped == 0
                &&& st.stats.row_errors@.len() == 0
                &&& st.stats.row_error_count == 0
                &&& texts(st.stats.unknown_columns@) == unknown_headers(texts(header@)).map_values(|u: (int, Seq<char>)| u.1)
                &&& st.stats.missing_columns@.map_values(|s: &str| s@)
                    == Seq::new(48, |c: int| c).filter(|c: int| binding(texts(header@), c) is None).map_values(|c: int| canonical_name(c))
            }),
    {
        let map = match ColumnMap::build(header) {
            Ok(m) => m,
            Err(e) => return Err(e),
        };
        let ghost hs = texts(header@);
        let missing_columns = map.missing();
        proof {
            lemma_filter_agrees(Seq::new(48, |c: int| c), |c: int| positions(map.idx@)[c] is None, |c: int| binding(hs, c) is None);
        }
        let mut unknown_columns: Vec<String> = Vec::new();
        let mut i: usize = 0;
        while i < map.unknown.len()
            invariant
                i <= map.unknown.len(),
                map.describes(hs),
                unknown_columns@.len() == i,
                forall|k: int| 0 <= k < i ==> #[trigger] unknown_columns@[k]@ == unknown_headers(hs)[k].1,
            decreases map.unknown.len() - i,
        {
            let name = map.unknown[i].1.clone();
            proof {
                assert((map.unknown@[i as int].0 as int, map.unknown@[i as int].1@) == unknown_headers(hs)[i as int]);
            }
            unknown_columns.push(name);
            i = i + 1;
        }
        proof {
            assert(texts(unknown_columns@) =~= unknown_headers(hs).map_values(|u: (int, Seq<char>)| u.1));
        }
        let stats = StreamStats {
            rows_parsed: 0,
            records_read: 0,
            rows_failed: 0,
            repeated_headers_skipped: 0,
            unknown_columns,
            missing_columns,
            row_errors: Vec::new(),
            row_error_count: 0,
        };
        Ok(RowStream { map, options, stats })
    }

    /// The text to decode as JSON for the record's `ReferenceId`, when it has the object
    /// form (see [`ReferenceId::json_text`]).
    pub fn reference_json(&self, rec: &Vec<String>) -> (r: Option<String>)
        requires
            self.wf(),
        ensures
            opt_text(r) == reference_json_text(cell_text(positions(self.map.idx@), texts(rec@), col::REFERENCE_ID as int)),
    {
        let raw = self.map.get(rec, col::REFERENCE_ID);
        ReferenceId::json_text(raw.as_str())
    }

    /// A record could not be read at the CSV level. Returns `true` when the stream must
    /// stop (strict mode: the read error becomes the result); otherwise the record is
    /// counted as read and as failed, and reading goes on.
    pub fn on_read_error(&mut self) -> (stop: bool)
        requires
            old(self).wf(),
            old(self).stats.rows_failed < u64::MAX,
            old(self).stats.records_read < u64::MAX,
        ensures
            final(self).wf(),
            stop == old(self).options.strict,
            stop ==> *final(self) == *old(self),
            !stop ==> *final(self) == (RowStream {
                stats: StreamStats {
                    records_read: (old(self).stats.records_read + 1) as u64,
                    rows_failed: (old(self).stats.rows_failed + 1) as u64,
                    ..old(self).stats
                },
                ..*old(self)
            }),
    {
        if self.options.strict {
            return true;
        }
        self.stats.rows_failed = self.stats.rows_failed + 1;
        self.stats.records_read = self.stats.records_read + 1;
        false
    }

    /// Fold a record's cell failures into the statistics: all are counted, the first are
    /// retained while fewer than the cap are held.
    fn note_errors(&mut self, errors: Vec<RowError>)
        requires
            old(self).stats.row_error_count + errors@.len() <= u64::MAX,
        ensures
            final(self).map == old(self).map,
            final(self).options == old(self).options,
            final(self).stats.rows_parsed == old(self).stats.rows_parsed,
            final(self).stats.records_read == old(self).stats.records_read,
            final(self).stats.rows_failed == old(self).stats.rows_failed,
            final(self).stats.repeated_headers_skipped == old(self).stats.repeated_headers_skipped,
            final(self).stats.unknown_columns == old(self).stats.unknown_columns,
            final(self).stats.missing_columns == old(self).stats.missing_columns,
            final(self).stats.row_error_count == old(self).stats.row_error_count + errors@.len(),
            error_views(final(self).stats.row_errors@)
                == retained(error_views(old(self).stats.row_errors@), error_views(errors@), old(self).options.max_retained_row_errors as int),
    {
        let ghost cap = self.options.max_retained_row_errors as int;
        let ghost start = error_views(self.stats.row_errors@);
        let ghost n = errors@.len();
        let ghost init = error_views(errors@);
        let mut errors = errors;
        while errors.len() > 0
            invariant
                cap == self.options.max_retained_row_errors as int,
                self.stats.row_error_count + errors@.len() == old(self).stats.row_error_count + n,
                old(self).stats.row_error_count + n <= u64::MAX,
                self.map == old(self).map,
                self.options == old(self).options,
                self.stats.rows_parsed == old(self).stats.rows_parsed,
                self.stats.records_read == old(self).stats.records_read,
                self.stats.rows_failed == old(self).stats.rows_failed,
                self.stats.repeated_headers_skipped == old(self).stats.repeated_headers_skipped,
                self.stats.unknown_columns == old(self).stats.unknown_columns,
                self.stats.missing_columns == old(self).stats.missing_columns,
                retained(start, init, cap) == retained(error_views(self.stats.row_errors@), error_views(errors@), cap),
            decreases errors.len(),
        {
            let ghost before = errors@;
            let e = errors.remove(0);
            proof {
                assert(error_views(errors@) =~= error_views(before).drop_first());
            }
            self.stats.row_error_count = self.stats.row_error_count + 1;
            if self.stats.row_errors.len() < self.options.max_retained_row_errors {
                let ghost kept = self.stats.row_errors@;
                self.stats.row_errors.push(e);
                proof {
                    assert(error_views(self.stats.row_errors@) =~= error_views(kept).push(error_views(before)[0]));
                }
            }
        }
    }
}

/// Statistics after a row is emitted with cell failures `fails`: one more record read and
/// one more row parsed, every failure counted, the first ones retained up to `cap`.
pub open spec fn stats_after_row(o: StreamStats, n: StreamStats, fails: Seq<(int, Seq<char>, Seq<char>, RowErrorKind)>, cap: int) -> bool {
    &&& n.records_read == o.records_read + 1
    &&& n.rows_parsed == o.rows_parsed + 1
    &&& n.rows_failed == o.rows_failed
    &&& n.repeated_headers_skipped == o.repeated_headers_skipped
    &&& n.unknown_columns == o.unknown_columns
    &&& n.missing_columns == o.missing_columns
    &&& n.row_error_count == o.row_error_count + fails.len()
    &&& error_views(n.row_errors@) == retained(error_views(o.row_errors@), fails, cap)
}

/// Statistics after a repeated header row is skipped.
pub open spec fn stats_after_skip(o: StreamStats, n: StreamStats) -> bool {
    n == (StreamStats {
        records_read: (o.records_read + 1) as u64,
        repeated_headers_skipped: (o.repeated_headers_skipped + 1) as u64,
        ..o
    })
}

/// A record yields at most one failure per parsed cell.
proof fn lemma_row_failures_len(record_index: int, pos: Seq<Option<int>>, rec: Seq<Seq<char>>, decoded: Option<ReferenceIdFields>)
    ensures
        row_failures(record_index, pos, rec, decoded).len() <= 13,
{
}

/// The bytes start with the gzip magic number `1f 8b`: the file is read through a gzip
/// decoder, otherwise as plain CSV.
pub fn is_gzip(prefix: &[u8]) -> (r: bool)
    ensures
        r == (prefix@.len() >= 2 && prefix@[0] == 0x1fu8 && prefix@[1] == 0x8bu8),
{
    prefix.len() >= 2 && prefix[0] == 0x1f && prefix[1] == 0x8b
}

impl RowStream {
    /// Handle one record read from the file. A repeated header row is skipped
    /// (`Ok(None)`); otherwise the record becomes the next row, numbered by the rows parsed
    /// so far, and its cell failures are folded into the statistics. In strict mode the
    /// first cell failure stops the stream instead.
    #[verifier::rlimit(30)]
    pub fn on_record(&mut self, rec: &Vec<String>, decoded: Option<ReferenceIdFields>) -> (r: Result<Option<ReconRow>, ReconError>)
        requires
            old(self).wf(),
            old(self).stats.records_read < u64::MAX,
            old(self).stats.row_error_count + 13 <= u64::MAX,
        ensures
            final(self).wf(),
            final(self).map == old(self).map,
            final(self).options == old(self).options,
            repeats_header(texts(rec@)) ==> (r matches Ok(None) && stats_after_skip(old(self).stats, final(self).stats)),
            !repeats_header(texts(rec@)) && old(self).options.strict
                && row_failures(old(self).stats.rows_parsed as int, positions(old(self).map.idx@), texts(rec@), decoded).len() > 0 ==>
                (r matches Err(ReconError::StrictRow(e))
                    && error_view(*e) == row_failures(old(self).stats.rows_parsed as int, positions(old(self).map.idx@), texts(rec@), decoded)[0]
                    && *final(self) == *old(self)),
            !repeats_header(texts(rec@)) && !(old(self).options.strict
                && row_failures(old(self).stats.rows_parsed as int, positions(old(self).map.idx@), texts(rec@), decoded).len() > 0) ==>
                (r matches Ok(Some(row))
                    && row_matches(row, old(self).stats.rows_parsed as int, positions(old(self).map.idx@), texts(rec@), decoded,
                        old(self).map.unknown@, old(self).options.capture_unknown_columns)
                    && stats_after_row(old(self).stats, final(self).stats,
                        row_failures(old(self).stats.rows_parsed as int, positions(old(self).map.idx@), texts(rec@), decoded),
                        old(self).options.max_retained_row_errors as int)),
    {
        if is_repeated_header(rec) {
            self.stats.records_read = self.stats.records_read + 1;
            self.stats.repeated_headers_skipped = self.stats.repeated_headers_skipped + 1;
            return Ok(None);
        }
        let ghost fails = row_failures(self.stats.rows_parsed as int, positions(self.map.idx@), texts(rec@), decoded);
        proof {
            lemma_row_failures_len(self.stats.rows_parsed as int, positions(self.map.idx@), texts(rec@), decoded);
        }
        let record_index = self.stats.rows_parsed;
        let mut errors: Vec<RowError> = Vec::new();
        let row = build_row(&self.map, rec, record_index, decoded, self.options.capture_unknown_columns, &mut errors);
        proof {
            assert(error_views(errors@) =~= fails);
        }
        if self.options.strict && errors.len() > 0 {
            let first = errors.remove(0);
            return Err(ReconError::StrictRow(Box::new(first)));
        }
        self.stats.records_read = self.stats.records_read + 1;
        self.note_errors(errors);
        self.stats.rows_parsed = self.stats.rows_parsed + 1;
        Ok(Some(row))
    }

    /// The row limit of the options has been reached: the stream stops after the row just
    /// emitted.
    pub fn limit_reached(&self) -> (r: bool)
        ensures
            r == (self.options.max_rows matches Some(m) && self.stats.rows_parsed >= m),
    {
        match self.options.max_rows {
            Some(m) => self.stats.rows_parsed >= m,
            None => false,
        }
    }

    /// The statistics of the stream, once the last record has been handled: every record
    /// read was parsed, skipped as a repeated header, or failed.
    pub fn finish(self) -> (r: StreamStats)
        requires
            self.wf(),
        ensures
            r == self.stats,
            r.records_read == r.rows_parsed + r.repeated_headers_skipped + r.rows_failed,
    {
        self.stats
    }
}

/// The cap on retained row errors: a full list is left alone, a short one is filled with
/// the earliest new failures until it holds `cap`; nothing already retained is lost.
pub proof fn law_retained_errors_are_capped<E>(kept: Seq<E>, new: Seq<E>, cap: int)
    ensures
        kept.len() >= cap ==> retained(kept, new, cap) == kept,
        kept.len() < cap ==> retained(kept, new, cap)
            == kept + new.take(if new.len() < cap - kept.len() { new.len() as int } else { cap - kept.len() }),
    decreases new.len(),
{
    if new.len() > 0 {
        if kept.len() < cap {
            law_retained_errors_are_capped(kept.push(new[0]), new.drop_first(), cap);
            let n = if new.len() < cap - kept.len() { new.len() as int } else { cap - kept.len() };
            let rest = new.drop_first();
            let n2 = if rest.len() < cap - kept.len() - 1 { rest.len() as int } else { cap - kept.len() - 1 };
            if kept.len() + 1 >= cap {
                assert(kept.push(new[0]) =~= kept + new.take(n));
            } else {
                assert(kept.push(new[0]) + rest.take(n2) =~= kept + new.take(n));
            }
        } else {
            law_retained_errors_are_capped(kept, new.drop_first(), cap);
        }
    } else {
        assert(kept + new.take(0) =~= kept);
    }
}


/// Every field of a row is read from the cell of the column that bears its name: the
/// `Total` field from the `Total` column, `Subtotal` from `Subtotal`, each date from its
/// own date column, and so on. A field never takes the value of a neighbouring column.
pub proof fn law_fields_come_from_their_own_columns(
    row: ReconRow,
    record_index: int,
    pos: Seq<Option<int>>,
    rec: Seq<Seq<char>>,
    decoded: Option<ReferenceIdFields>,
    unknown: Seq<(usize, String)>,
    capture: bool,
)
    requires
        row_matches(row, record_index, pos, rec, decoded, unknown, capture),
    ensures
        canonical_name(col::PARTNER_ID as int) == "PartnerId"@,
        row.partner_id@ == cell_text(pos, rec, col::PARTNER_ID as int),
        canonical_name(col::CUSTOMER_ID as int) == "CustomerId"@,
        row.customer_id@ == cell_text(pos, rec, col::CUSTOMER_ID as int),
        canonical_name(col::CUSTOMER_NAME as int) == "CustomerName"@,
        row.customer_name@ == cell_text(pos, rec, col::CUSTOMER_NAME as int),
        canonical_name(col::CUSTOMER_DOMAIN_NAME as int) == "CustomerDomainName"@,
        row.customer_domain_name@ == cell_text(pos, rec, col::CUSTOMER_DOMAIN_NAME as int),
        canonical_name(col::CUSTOMER_COUNTRY as int) == "CustomerCountry"@,
        row.customer_country@ == cell_text(pos, rec, col::CUSTOMER_COUNTRY as int),
        canonical_name(col::INVOICE_NUMBER as int) == "InvoiceNumber"@,
        row.invoice_number@ == cell_text(pos, rec, col::INVOICE_NUMBER as int),
        canonical_name(col::ORDER_ID as int) == "OrderId"@,
        row.order_id@ == cell_text(pos, rec, col::ORDER_ID as int),
        canonical_name(col::PRODUCT_ID as int) == "ProductId"@,
        row.product_id@ == cell_text(pos, rec, col::PRODUCT_ID as int),
        canonical_name(col::SKU_ID as int) == "SkuId"@,
        row.sku_id@ == cell_text(pos, rec, col::SKU_ID as int),
        canonical_name(col::AVAILABILITY_ID as int) == "AvailabilityId"@,
        row.availability_id@ == cell_text(pos, rec, col::AVAILABILITY_ID as int),
        canonical_name(col::SKU_NAME as int) == "SkuName"@,
        row.sku_name@ == cell_text(pos, rec, col::SKU_NAME as int),
        canonical_name(col::PRODUCT_NAME as int) == "ProductName"@,
        row.product_name@ == cell_text(pos, rec, col::PRODUCT_NAME as int),
        canonical_name(col::SUBSCRIPTION_ID as int) == "SubscriptionId"@,
        row.subscription_id@ == cell_text(pos, rec, col::SUBSCRIPTION_ID as int),
        canonical_name(col::SUBSCRIPTION_DESCRIPTION as int) == "SubscriptionDescription"@,
        row.subscription_description@ == cell_text(pos, rec, col::SUBSCRIPTION_DESCRIPTION as int),
        canonical_name(col::TERM_AND_BILLING_CYCLE as int) == "TermAndBillingCycle"@,
        row.term_and_billing_cycle@ == cell_text(pos, rec, col::TERM_AND_BILLING_CYCLE as int),
        canonical_name(col::UNIT_TYPE as int) == "UnitType"@,
        row.unit_type@ == cell_text(pos, rec, col::UNIT_TYPE as int),
        canonical_name(col::CURRENCY as int) == "Currency"@,
        row.currency@ == cell_text(pos, rec, col::CURRENCY as int),
        canonical_name(col::PRICING_CURRENCY as int) == "PricingCurrency"@,
        row.pricing_currency@ == cell_text(pos, rec, col::PRICING_CURRENCY as int),
        canonical_name(col::PRICE_ADJUSTMENT_DESCRIPTION as int) == "PriceAdjustmentDescription"@,
        row.price_adjustment_description@ == cell_text(pos, rec, col::PRICE_ADJUSTMENT_DESCRIPTION as int),
        canonical_name(col::PROMOTION_ID as int) == "PromotionId"@,
        row.promotion_id@ == cell_text(pos, rec, col::PROMOTION_ID as int),
        canonical_name(col::PRODUCT_CATEGORY as int) == "ProductCategory"@,
        row.product_category@ == cell_text(pos, rec, col::PRODUCT_CATEGORY as int),
        canonical_name(col::SUBSCRIPTION_START_DATE as int) == "SubscriptionStartDate"@,
        opt_date_view(row.subscription_start_date) == date_or_none(cell_text(pos, rec, col::SUBSCRIPTION_START_DATE as int)),
        canonical_name(col::SUBSCRIPTION_END_DATE as int) == "SubscriptionEndDate"@,
        opt_date_view(row.subscription_end_date) == date_or_none(cell_text(pos, rec, col::SUBSCRIPTION_END_DATE as int)),
        canonical_name(col::CHARGE_START_DATE as int) == "ChargeStartDate"@,
        opt_date_view(row.charge_start_date) == date_or_none(cell_text(pos, rec, col::CHARGE_START_DATE as int)),
        canonical_name(col::CHARGE_END_DATE as int) == "ChargeEndDate"@,
        opt_date_view(row.charge_end_date) == date_or_none(cell_text(pos, rec, col::CHARGE_END_DATE as int)),
        canonical_name(col::UNIT_PRICE as int) == "UnitPrice"@,
        opt_view(row.unit_price) == decimal_or_none(cell_text(pos, rec, col::UNIT_PRICE as int)),
        canonical_name(col::EFFECTIVE_UNIT_PRICE as int) == "EffectiveUnitPrice"@,
        opt_view(row.effective_unit_price) == decimal_or_none(cell_text(pos, rec, col::EFFECTIVE_UNIT_PRICE as int)),
        canonical_name(col::QUANTITY as int) == "Quantity"@,
        opt_view(row.quantity) == decimal_or_none(cell_text(pos, rec, col::QUANTITY as int)),
        canonical_name(col::BILLABLE_QUANTITY as int) == "BillableQuantity"@,
        opt_view(row.billable_quantity) == decimal_or_none(cell_text(pos, rec, col::BILLABLE_QUANTITY as int)),
        canonical_name(col::SUBTOTAL as int) == "Subtotal"@,
        opt_view(row.subtotal) == decimal_or_none(cell_text(pos, rec, col::SUBTOTAL as int)),
        canonical_name(col::TAX_TOTAL as int) == "TaxTotal"@,
        opt_view(row.tax_total) == decimal_or_none(cell_text(pos, rec, col::TAX_TOTAL as int)),
        canonical_name(col::TOTAL as int) == "Total"@,
        opt_view(row.total) == decimal_or_none(cell_text(pos, rec, col::TOTAL as int)),
        canonical_name(col::PC_TO_BC_EXCHANGE_RATE as int) == "PCToBCExchangeRate"@,
        opt_view(row.pc_to_bc_exchange_rate) == decimal_or_none(cell_text(pos, rec, col::PC_TO_BC_EXCHANGE_RATE as int)),
        canonical_name(col::CHARGE_TYPE as int) == "ChargeType"@,
        row.charge_type@ == charge_kind_of(cell_text(pos, rec, col::CHARGE_TYPE as int)),
        row.term == billing_term_of(cell_text(pos, rec, col::TERM_AND_BILLING_CYCLE as int)),
        canonical_name(col::REFERENCE_ID as int) == "ReferenceId"@,
        row.reference_id@ == reference_id_of(cell_text(pos, rec, col::REFERENCE_ID as int), decoded).0,
{
}

} // verus!
