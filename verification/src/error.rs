//! Error types.
//!
//! Two tiers on purpose: [`ReconError`] stops the stream; [`RowError`] records one cell that
//! did not parse while the row is still delivered with that field absent.

use vstd::prelude::*;

use crate::text::{chars_of, string_from_chars};

verus! {

/// A cell contained text we refuse to guess at.
#[derive(Debug, Clone, Copy, PartialEq, Eq, Structural)]
pub enum CellError {
    NotDecimal,
    NotDate,
}

impl CellError {
    /// The sentence that describes the failure.
    pub fn message(self) -> (r: &'static str)
        ensures
            r@ == (match self {
                CellError::NotDecimal => "not a decimal number"@,
                CellError::NotDate => "not a date in any accepted layout"@,
            }),
    {
        match self {
            CellError::NotDecimal => "not a decimal number",
            CellError::NotDate => "not a date in any accepted layout",
        }
    }
}

/// What went wrong inside a single cell.
#[derive(Debug, Clone, Copy, PartialEq, Eq, Structural)]
pub enum RowErrorKind {
    /// The cell did not parse as a decimal (after apostrophe/scientific handling).
    Decimal,
    /// The cell did not parse as a date in any accepted layout.
    Date,
    /// `ReferenceId` looked like JSON but was not valid JSON. Kept as a legacy scalar.
    ReferenceIdJson,
}

impl RowErrorKind {
    pub fn as_str(self) -> (r: &'static str)
        ensures
            r@ == (match self {
                RowErrorKind::Decimal => "decimal"@,
                RowErrorKind::Date => "date"@,
                RowErrorKind::ReferenceIdJson => "reference_id_json"@,
            }),
    {
        match self {
            RowErrorKind::Decimal => "decimal",
            RowErrorKind::Date => "date",
            RowErrorKind::ReferenceIdJson => "reference_id_json",
        }
    }
}

/// Bytes a character takes in UTF-8.
pub open spec fn utf8_len(c: char) -> nat {
    let u = c as u32;
    if u < 0x80 {
        1
    } else if u < 0x800 {
        2
    } else if u < 0x10000 {
        3
    } else {
        4
    }
}

/// Bytes `s` takes in UTF-8 (`str::len`).
pub open spec fn utf8_byte_len(s: Seq<char>) -> nat
    decreases s.len(),
{
    if s.len() == 0 {
        0
    } else {
        utf8_byte_len(s.drop_last()) + utf8_len(s.last())
    }
}

/// Number of leading characters of `s` whose UTF-8 encoding fits in `budget` bytes: where
/// a byte-length cut must fall back to so as to land on a character boundary.
pub open spec fn fitting_prefix_len(s: Seq<char>, budget: nat) -> nat
    decreases s.len(),
{
    if s.len() == 0 || utf8_len(s[0]) > budget {
        0
    } else {
        1 + fitting_prefix_len(s.drop_first(), (budget - utf8_len(s[0])) as nat)
    }
}

/// Longest text kept verbatim in a [`RowError`], in bytes.
pub open spec fn max_error_value_bytes() -> nat {
    120
}

/// The stored form of an offending cell: verbatim when it takes at most 120 bytes,
/// otherwise its longest prefix of at most 120 bytes followed by `…`.
pub open spec fn clipped_value(s: Seq<char>) -> Seq<char> {
    if utf8_byte_len(s) > max_error_value_bytes() {
        s.take(fitting_prefix_len(s, max_error_value_bytes()) as int).push('\u{2026}')
    } else {
        s
    }
}

fn utf8_len_exec(c: char) -> (r: u64)
    ensures
        r == utf8_len(c),
{
    let u = c as u32;
    if u < 0x80 {
        1
    } else if u < 0x800 {
        2
    } else if u < 0x10000 {
        3
    } else {
        4
    }
}

proof fn lemma_fitting_prefix(s: Seq<char>, budget: nat, k: nat)
    requires
        k <= s.len(),
        utf8_byte_len(s.take(k as int)) <= budget,
        k == s.len() || utf8_byte_len(s.take(k as int)) + utf8_len(s[k as int]) > budget,
    ensures
        fitting_prefix_len(s, budget) == k,
    decreases k,
{
    if k > 0 {
        lemma_byte_len_first(s.take(k as int));
        assert(s.take(k as int).drop_first() =~= s.drop_first().take(k - 1));
        let rest = s.drop_first();
        let b2 = (budget - utf8_len(s[0])) as nat;
        assert(s.take(k as int)[0] == s[0]);
        if k < s.len() {
            assert(s.take(k as int + 1).drop_last() =~= s.take(k as int));
            assert(rest[k - 1] == s[k as int]);
        }
        lemma_fitting_prefix(rest, b2, (k - 1) as nat);
    } else {
        if s.len() > 0 {
            assert(s.take(0) =~= Seq::<char>::empty());
        }
    }
}

proof fn lemma_byte_len_first(s: Seq<char>)
    requires
        s.len() > 0,
    ensures
        utf8_byte_len(s) == utf8_len(s[0]) + utf8_byte_len(s.drop_first()),
    decreases s.len(),
{
    if s.len() > 1 {
        lemma_byte_len_first(s.drop_last());
        assert(s.drop_last().drop_first() =~= s.drop_first().drop_last());
        assert(s.drop_last()[0] == s[0]);
        assert(s.drop_first().last() == s.last());
    } else {
        assert(s.drop_last() =~= Seq::<char>::empty());
        assert(s.drop_first() =~= Seq::<char>::empty());
    }
}

/// A non-fatal, per-cell parse failure. Carries enough to reproduce the problem by hand.
#[derive(Debug, Clone, PartialEq, Eq)]
pub struct RowError {
    /// Zero-based index of the data record (header excluded).
    pub record_index: u64,
    /// Canonical column name, e.g. `EffectiveUnitPrice`.
    pub column: &'static str,
    /// The offending cell, verbatim and truncated to a sane length.
    pub value: String,
    pub kind: RowErrorKind,
}

/// What `<str as Debug>::fmt` writes for a text: quoted, with escapes.
pub uninterp spec fn debug_quoted(s: Seq<char>) -> Seq<char>;

/// `format!("{:?}", s)`: the text quoted and escaped as Rust's `Debug` writes it.
#[verifier::external_body]
pub(crate) fn debug_quote(s: &str) -> (r: String)
    ensures
        r@ == debug_quoted(s@),
{
    format!("{:?}", s)
}

/// The sentence a [`RowError`] displays as.
pub open spec fn row_error_text(column: Seq<char>, kind: RowErrorKind, value: Seq<char>) -> Seq<char> {
    let kind_text = match kind {
        RowErrorKind::Decimal => "decimal"@,
        RowErrorKind::Date => "date"@,
        RowErrorKind::ReferenceIdJson => "reference_id_json"@,
    };
    "column "@ + column + " is not a valid "@ + kind_text + " (value: "@ + debug_quoted(value) + ")"@
}

impl RowError {
    /// A row error for `value`, clipped to at most 120 bytes plus an ellipsis.
    pub fn new(record_index: u64, column: &'static str, value: &str, kind: RowErrorKind) -> (r: RowError)
        ensures
            r.record_index == record_index,
            r.column == column,
            r.value@ == clipped_value(value@),
            r.kind == kind,
    {
        let chars = chars_of(value);
        // Byte length, and the character count that fits in the budget.
        let mut bytes: u64 = 0;
        let mut fit: usize = 0;
        let mut fit_found = false;
        let mut i: usize = 0;
        while i < chars.len()
            invariant
                chars@ == value@,
                i <= chars.len(),
                bytes == (if utf8_byte_len(chars@.take(i as int)) > 120 { 121 } else { utf8_byte_len(chars@.take(i as int)) }),
                fit <= i,
                !fit_found ==> fit == i && bytes <= 120,
                fit_found ==> (utf8_byte_len(chars@.take(fit as int)) <= 120
                    && utf8_byte_len(chars@.take(fit as int)) + utf8_len(chars@[fit as int]) > 120
                    && fit < chars.len()),
            decreases chars.len() - i,
        {
            let c = chars[i];
            let l = utf8_len_exec(c);
            proof {
                assert(chars@.take(i + 1).drop_last() =~= chars@.take(i as int));
                assert(chars@.take(i + 1).last() == c);
            }
            if !fit_found && bytes + l > 120 {
                fit_found = true;
            }
            bytes = if bytes + l > 120 { 121 } else { bytes + l };
            i = i + 1;
            if !fit_found {
                fit = i;
            }
        }
        proof {
            assert(chars@.take(chars.len() as int) =~= chars@);
        }
        let stored = if bytes > 120 {
            proof {
                lemma_fitting_prefix(chars@, 120, fit as nat);
            }
            let mut kept = crate::text::slice_chars(&chars, 0, fit);
            kept.push('\u{2026}');
            proof {
                assert(chars@.subrange(0, fit as int) =~= chars@.take(fit as int));
            }
            string_from_chars(&kept)
        } else {
            string_from_chars(&chars)
        };
        RowError { record_index, column, value: stored, kind }
    }

    /// `column EffectiveUnitPrice is not a valid decimal (value: "n/a")`.
    pub fn message(&self) -> (r: String)
        ensures
            r@ == row_error_text(self.column@, self.kind, self.value@),
    {
        let mut out = String::from_str("column ");
        out.append(self.column);
        out.append(" is not a valid ");
        out.append(self.kind.as_str());
        out.append(" (value: ");
        let q = debug_quote(self.value.as_str());
        out.append(q.as_str());
        out.append(")");
        out
    }
}

/// A fatal error: the stream stopped.
#[derive(Debug)]
pub enum ReconError {
    /// The file had no header row at all.
    EmptyHeader,
    /// Columns the detectors cannot work without were absent from the header.
    MissingRequiredColumns(Vec<String>),
    /// A cell failed to parse while strict parsing was on.
    StrictRow(Box<RowError>),
}

/// The text of a list of names joined by `", "`.
pub open spec fn names_joined(names: Seq<Seq<char>>) -> Seq<char>
    decreases names.len(),
{
    if names.len() == 0 {
        Seq::empty()
    } else if names.len() == 1 {
        names[0]
    } else {
        names_joined(names.drop_last()) + ", "@ + names.last()
    }
}

/// The decimal text of a whole number.
pub open spec fn whole_text(n: nat) -> Seq<char> {
    if n == 0 { "0"@ } else { crate::dec::digits(n) }
}

/// The sentence a [`ReconError`] displays as.
pub open spec fn recon_error_text(e: ReconError) -> Seq<char> {
    match e {
        ReconError::EmptyHeader => "the file has no header row"@,
        ReconError::MissingRequiredColumns(names) =>
            "reconciliation export is missing required column(s): "@ + names_joined(names@.map_values(|s: String| s@)),
        ReconError::StrictRow(r) =>
            "row "@ + whole_text(r.record_index as nat) + ": "@ + row_error_text(r.column@, r.kind, r.value@),
    }
}

impl ReconError {
    /// The sentence this error displays as.
    pub fn message(&self) -> (r: String)
        ensures
            r@ == recon_error_text(*self),
    {
        match self {
            ReconError::EmptyHeader => "the file has no header row".to_owned(),
            ReconError::MissingRequiredColumns(names) => {
                let ghost ts = names@.map_values(|s: String| s@);
                let mut out = "reconciliation export is missing required column(s): ".to_owned();
                let ghost head = out@;
                let mut i: usize = 0;
                proof {
                    assert(ts.take(0) =~= Seq::<Seq<char>>::empty());
                    assert(out@ =~= head + names_joined(ts.take(0)));
                }
                while i < names.len()
                    invariant
                        i <= names.len(),
                        ts == names@.map_values(|s: String| s@),
                        out@ == head + names_joined(ts.take(i as int)),
                    decreases names.len() - i,
                {
                    proof {
                        assert(ts.take(i + 1).drop_last() =~= ts.take(i as int));
                        assert(ts.take(i + 1).last() == names@[i as int]@);
                    }
                    if i > 0 {
                        out.append(", ");
                    }
                    out.append(names[i].as_str());
                    proof {
                        if i == 0 {
                            assert(out@ =~= head + names_joined(ts.take(1)));
                        } else {
                            assert(out@ =~= head + names_joined(ts.take(i as int)) + ", "@ + names@[i as int]@);
                        }
                    }
                    i = i + 1;
                }
                proof {
                    assert(ts.take(names.len() as int) =~= ts);
                }
                out
            },
            ReconError::StrictRow(r) => {
                let mut out = "row ".to_owned();
                if r.record_index == 0 {
                    out.append("0");
                } else {
                    let ds = crate::dec::digits_exec(r.record_index as u128);
                    let t = string_from_chars(&ds);
                    out.append(t.as_str());
                }
                out.append(": ");
                let m = r.message();
                out.append(m.as_str());
                out
            },
        }
    }
}

} // verus!
