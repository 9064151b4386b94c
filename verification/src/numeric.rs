//! Cell-level numeric and date parsing for Partner Center exports.
//!
//! The three shapes Partner Center emits for numbers: `'22.000000000000000000` (Excel-guard
//! apostrophe, 18 decimals), `'0E-20` (scientific notation) and `'-2.0000` (a negative
//! quantity). The apostrophe is not part of the value and is stripped before parsing.

use vstd::prelude::*;

use crate::date::{naive_date_parse_from_str, opt_date_view, parse_from_str, Date, DateView};
use crate::dec::{
    decimal_from_scientific, decimal_from_str, decimal_from_str_exact, from_scientific,
    from_str_exact, from_str_rounding, opt_view, Dec, DecView,
};
use crate::error::CellError;
use crate::text::{
    chars_of, is_ascii_digit, is_whitespace, is_whitespace_exec, slice_chars,
    string_from_chars, trim, trim_chars, trim_end, trim_start, lemma_trim_end_shape, lemma_trim_fixed,
    lemma_trim_start_shape,
};

verus! {

/// Strips leading apostrophes, each with the whitespace after it.
pub open spec fn strip_guards(s: Seq<char>) -> Seq<char>
    decreases s.len(),
{
    if s.len() > 0 && s[0] == '\'' {
        proof {
            lemma_trim_start_shorter(s.drop_first());
        }
        strip_guards(trim_start(s.drop_first()))
    } else {
        s
    }
}

pub proof fn lemma_trim_start_shorter(s: Seq<char>)
    ensures
        trim_start(s).len() <= s.len(),
    decreases s.len(),
{
    if s.len() > 0 && is_whitespace(s[0]) {
        lemma_trim_start_shorter(s.drop_first());
    }
}

/// The bare text of a cell: surrounding whitespace and any number of Excel-guard
/// apostrophes (with whitespace after them) removed.
pub open spec fn unguarded(raw: Seq<char>) -> Seq<char> {
    trim_end(strip_guards(trim(raw)))
}

/// After the guards are stripped from a text that starts with a non-space, what is left
/// starts with neither a space nor an apostrophe.
proof fn lemma_strip_guards_head(s: Seq<char>)
    requires
        s.len() > 0 ==> !is_whitespace(s[0]),
    ensures
        strip_guards(s).len() > 0 ==> strip_guards(s)[0] != '\'' && !is_whitespace(strip_guards(s)[0]),
    decreases s.len(),
{
    if s.len() > 0 && s[0] == '\'' {
        lemma_trim_start_shorter(s.drop_first());
        lemma_trim_start_shape(s.drop_first());
        lemma_strip_guards_head(trim_start(s.drop_first()));
    }
}

/// Unguarding is idempotent: an unguarded cell has nothing left to strip.
pub proof fn law_unguard_is_idempotent(raw: Seq<char>)
    ensures
        unguarded(unguarded(raw)) == unguarded(raw),
{
    let a = trim_start(raw);
    lemma_trim_start_shape(raw);
    lemma_trim_end_shape(a);
    let t = trim(raw);
    if t.len() > 0 {
        assert(t[0] == a[0]);
    }
    let g = strip_guards(t);
    lemma_strip_guards_head(t);
    let u = trim_end(g);
    lemma_trim_end_shape(g);
    if u.len() > 0 {
        assert(u[0] == g[0]);
    }
    lemma_trim_fixed(u);
    assert(strip_guards(u) == u);
}

proof fn lemma_trim_end_idem(s: Seq<char>)
    ensures
        trim_end(trim_end(s)) == trim_end(s),
    decreases s.len(),
{
    if s.len() > 0 && is_whitespace(s.last()) {
        lemma_trim_end_idem(s.drop_last());
    }
}

/// `v` with leading whitespace skipped, as a vector.
fn trim_start_chars(v: &Vec<char>) -> (r: Vec<char>)
    ensures
        r@ == trim_start(v@),
{
    let mut i: usize = 0;
    proof {
        assert(v@.skip(0) =~= v@);
    }
    while i < v.len() && is_whitespace_exec(v[i])
        invariant
            i <= v.len(),
            trim_start(v@) == trim_start(v@.skip(i as int)),
        decreases v.len() - i,
    {
        proof {
            assert(v@.skip(i as int).drop_first() =~= v@.skip(i + 1));
        }
        i = i + 1;
    }
    proof {
        assert(v@.skip(0) =~= v@) by {}
        let t = v@.skip(i as int);
        if t.len() > 0 {
            assert(t[0] == v@[i as int]);
        }
    }
    let r = slice_chars(v, i, v.len());
    proof {
        assert(r@ =~= v@.skip(i as int));
    }
    r
}

/// The characters of [`unguard`].
pub fn unguard_chars(raw: &Vec<char>) -> (r: Vec<char>)
    ensures
        r@ == unguarded(raw@),
{
    let mut s = trim_chars(raw);
    let ghost start = s@;
    while s.len() > 0 && s[0] == '\''
        invariant
            strip_guards(s@) == strip_guards(start),
        decreases s.len(),
    {
        let rest = slice_chars(&s, 1, s.len());
        proof {
            assert(rest@ =~= s@.drop_first());
            lemma_trim_start_shorter(rest@);
        }
        s = trim_start_chars(&rest);
    }
    let mut j = s.len();
    proof {
        assert(s@.take(s.len() as int) =~= s@);
    }
    while j > 0 && is_whitespace_exec(s[j - 1])
        invariant
            j <= s.len(),
            trim_end(s@) == trim_end(s@.take(j as int)),
        decreases j,
    {
        proof {
            assert(s@.take(j as int).drop_last() =~= s@.take(j - 1));
        }
        j = j - 1;
    }
    proof {
        assert(s@.take(s.len() as int) =~= s@);
        let t = s@.take(j as int);
        if t.len() > 0 {
            assert(t.last() == s@[j - 1]);
        }
    }
    let r = slice_chars(&s, 0, j);
    proof {
        assert(r@ =~= s@.take(j as int));
    }
    r
}

/// Strip the Excel guard and surrounding whitespace. Returns the bare numeric text.
///
/// Tolerant of repeated apostrophes and of whitespace on either side of them.
pub fn unguard(raw: &str) -> (r: String)
    ensures
        r@ == unguarded(raw@),
{
    let v = chars_of(raw);
    let u = unguard_chars(&v);
    string_from_chars(&u)
}

/// `s` contains an `e` or an `E`: the marker of scientific notation.
pub open spec fn has_exponent(s: Seq<char>) -> bool {
    exists|i: int| 0 <= i < s.len() && (s[i] == 'e' || s[i] == 'E')
}

fn has_exponent_exec(v: &Vec<char>) -> (r: bool)
    ensures
        r == has_exponent(v@),
{
    let mut i: usize = 0;
    while i < v.len()
        invariant
            i <= v.len(),
            forall|k: int| 0 <= k < i ==> !(v@[k] == 'e' || v@[k] == 'E'),
        decreases v.len() - i,
    {
        if v[i] == 'e' || v[i] == 'E' {
            return true;
        }
        i = i + 1;
    }
    false
}

/// The decimal a non-empty bare cell text denotes: scientific notation through
/// `Decimal::from_scientific`; otherwise `Decimal::from_str_exact`, falling back to the
/// rounding `Decimal::from_str` past 28 significant digits.
pub open spec fn decimal_of_text(s: Seq<char>) -> Option<DecView> {
    if has_exponent(s) {
        decimal_from_scientific(s)
    } else if decimal_from_str_exact(s) is Some {
        decimal_from_str_exact(s)
    } else {
        decimal_from_str(s)
    }
}

/// What [`parse_decimal`] returns for a raw cell.
pub open spec fn decimal_cell(raw: Seq<char>) -> Result<Option<DecView>, CellError> {
    let s = unguarded(raw);
    if s.len() == 0 {
        Ok(None)
    } else {
        match decimal_of_text(s) {
            Some(d) => Ok(Some(d)),
            None => Err(CellError::NotDecimal),
        }
    }
}

/// The view of a parsed decimal cell.
pub open spec fn decimal_result_view(r: Result<Option<Dec>, CellError>) -> Result<Option<DecView>, CellError> {
    match r {
        Ok(Some(d)) => Ok(Some(d@)),
        Ok(None) => Ok(None),
        Err(e) => Err(e),
    }
}

/// Parse a money/quantity cell.
///
/// `Ok(None)` for an empty cell (a blank price is *absent*, not zero); `Err(NotDecimal)`
/// when there is text we refuse to guess at.
pub fn parse_decimal(raw: &str) -> (r: Result<Option<Dec>, CellError>)
    ensures
        decimal_result_view(r) == decimal_cell(raw@),
{
    let v = chars_of(raw);
    let u = unguard_chars(&v);
    if u.len() == 0 {
        return Ok(None);
    }
    let s = string_from_chars(&u);
    let parsed = if has_exponent_exec(&u) {
        from_scientific(s.as_str())
    } else {
        match from_str_exact(s.as_str()) {
            Some(d) => Some(d),
            None => from_str_rounding(s.as_str()),
        }
    };
    match parsed {
        Some(d) => Ok(Some(d)),
        None => Err(CellError::NotDecimal),
    }
}

/// The text before the first `T` or space (`str::split(['T', ' ']).next()`).
pub open spec fn date_head(s: Seq<char>) -> Seq<char>
    decreases s.len(),
{
    if s.len() == 0 {
        s
    } else if s[0] == 'T' || s[0] == ' ' {
        Seq::empty()
    } else {
        seq![s[0]] + date_head(s.drop_first())
    }
}

proof fn lemma_date_head(s: Seq<char>, i: int)
    requires
        0 <= i <= s.len(),
        forall|k: int| 0 <= k < i ==> !(s[k] == 'T' || s[k] == ' '),
        i == s.len() || s[i] == 'T' || s[i] == ' ',
    ensures
        date_head(s) == s.take(i),
    decreases i,
{
    if i > 0 {
        lemma_date_head(s.drop_first(), i - 1);
        assert(s.take(i) =~= seq![s[0]] + s.drop_first().take(i - 1));
    } else {
        assert(s.take(0) =~= Seq::<char>::empty());
    }
}

/// What [`parse_date`] returns for a raw cell: `%Y-%m-%d` on the text before any time of
/// day, then `%m/%d/%Y`, `%m/%d/%y` and `%d.%m.%Y`, each through `NaiveDate::parse_from_str`.
pub open spec fn date_cell(raw: Seq<char>) -> Result<Option<DateView>, CellError> {
    let s = unguarded(raw);
    let head = date_head(s);
    if s.len() == 0 {
        Ok(None)
    } else if naive_date_parse_from_str(head, "%Y-%m-%d"@) is Some {
        Ok(naive_date_parse_from_str(head, "%Y-%m-%d"@))
    } else if naive_date_parse_from_str(head, "%m/%d/%Y"@) is Some {
        Ok(naive_date_parse_from_str(head, "%m/%d/%Y"@))
    } else if naive_date_parse_from_str(head, "%m/%d/%y"@) is Some {
        Ok(naive_date_parse_from_str(head, "%m/%d/%y"@))
    } else if naive_date_parse_from_str(head, "%d.%m.%Y"@) is Some {
        Ok(naive_date_parse_from_str(head, "%d.%m.%Y"@))
    } else {
        Err(CellError::NotDate)
    }
}

/// The view of a parsed date cell.
pub open spec fn date_result_view(r: Result<Option<Date>, CellError>) -> Result<Option<DateView>, CellError> {
    match r {
        Ok(Some(d)) => Ok(Some(d@)),
        Ok(None) => Ok(None),
        Err(e) => Err(e),
    }
}

/// Parse a date cell.
///
/// Accepts `2026-07-01T00:00:00Z`, `2026-07-01 00:00:00`, `2026-07-01`, and the
/// `MM/DD/YYYY`, `MM/DD/YY` and `DD.MM.YYYY` layouts of re-saved files. Time of day is
/// discarded: charge periods are whole days.
pub fn parse_date(raw: &str) -> (r: Result<Option<Date>, CellError>)
    ensures
        date_result_view(r) == date_cell(raw@),
{
    let v = chars_of(raw);
    let u = unguard_chars(&v);
    if u.len() == 0 {
        return Ok(None);
    }
    let mut i: usize = 0;
    while i < u.len() && u[i] != 'T' && u[i] != ' '
        invariant
            i <= u.len(),
            forall|k: int| 0 <= k < i ==> !(u@[k] == 'T' || u@[k] == ' '),
        decreases u.len() - i,
    {
        i = i + 1;
    }
    proof {
        lemma_date_head(u@, i as int);
    }
    let head_chars = slice_chars(&u, 0, i);
    proof {
        assert(head_chars@ =~= u@.take(i as int));
    }
    let head = string_from_chars(&head_chars);
    if let Some(d) = parse_from_str(head.as_str(), "%Y-%m-%d") {
        return Ok(Some(d));
    }
    if let Some(d) = parse_from_str(head.as_str(), "%m/%d/%Y") {
        return Ok(Some(d));
    }
    if let Some(d) = parse_from_str(head.as_str(), "%m/%d/%y") {
        return Ok(Some(d));
    }
    if let Some(d) = parse_from_str(head.as_str(), "%d.%m.%Y") {
        return Ok(Some(d));
    }
    Err(CellError::NotDate)
}

/// Index of the first `c` in `s`.
pub open spec fn first_index_of(s: Seq<char>, c: char) -> Option<int>
    decreases s.len(),
{
    if s.len() == 0 {
        None
    } else if s[0] == c {
        Some(0)
    } else {
        match first_index_of(s.drop_first(), c) {
            Some(i) => Some(i + 1),
            None => None,
        }
    }
}

/// Scanning left from position `i`, where a run of digits (with points allowed once a digit
/// has been seen to their right) begins.
pub open spec fn number_start(s: Seq<char>, i: int, seen_digit: bool) -> int
    decreases i,
{
    if 0 < i <= s.len() && (is_ascii_digit(s[i - 1]) || (s[i - 1] == '.' && seen_digit)) {
        number_start(s, i - 1, seen_digit || is_ascii_digit(s[i - 1]))
    } else {
        i
    }
}

/// `s` without trailing `.` characters.
pub open spec fn trim_dots_end(s: Seq<char>) -> Seq<char>
    decreases s.len(),
{
    if s.len() > 0 && s.last() == '.' {
        trim_dots_end(s.drop_last())
    } else {
        s
    }
}

/// The number written just before the first `%` in `text`, through `Decimal::from_str`.
pub open spec fn percentage_of(text: Seq<char>) -> Option<DecView> {
    match first_index_of(text, '%') {
        None => None,
        Some(p) => {
            let start = number_start(text, p, false);
            if start == p {
                None
            } else {
                decimal_from_str(trim_dots_end(text.subrange(start, p)))
            }
        }
    }
}

proof fn lemma_first_index(s: Seq<char>, c: char, i: int)
    requires
        0 <= i <= s.len(),
        forall|k: int| 0 <= k < i ==> s[k] != c,
    ensures
        i < s.len() && s[i] == c ==> first_index_of(s, c) == Some(i),
        i == s.len() ==> first_index_of(s, c) is None,
    decreases i,
{
    if i > 0 {
        lemma_first_index(s.drop_first(), c, i - 1);
    }
}

/// Extract a whole-percent figure from free text, e.g. `"... 23% Fee Applied"` -> `23`.
///
/// Reads the rate straight out of `PriceAdjustmentDescription`; the first percentage found.
pub fn first_percentage(text: &str) -> (r: Option<Dec>)
    ensures
        opt_view(r) == percentage_of(text@),
{
    let v = chars_of(text);
    let mut pct: usize = 0;
    while pct < v.len() && v[pct] != '%'
        invariant
            pct <= v.len(),
            forall|k: int| 0 <= k < pct ==> v@[k] != '%',
        decreases v.len() - pct,
    {
        pct = pct + 1;
    }
    proof {
        lemma_first_index(v@, '%', pct as int);
    }
    if pct == v.len() {
        return None;
    }
    let mut start = pct;
    let mut seen_digit = false;
    while start > 0 && (('0' <= v[start - 1] && v[start - 1] <= '9') || (v[start - 1] == '.' && seen_digit))
        invariant
            start <= pct < v.len(),
            number_start(v@, start as int, seen_digit) == number_start(v@, pct as int, false),
            seen_digit == (start < pct),
        decreases start,
    {
        if '0' <= v[start - 1] && v[start - 1] <= '9' {
            seen_digit = true;
        }
        start = start - 1;
    }
    if !seen_digit {
        return None;
    }
    let mut end = pct;
    while end > start && v[end - 1] == '.'
        invariant
            start <= end <= pct < v.len(),
            trim_dots_end(v@.subrange(start as int, pct as int)) == trim_dots_end(v@.subrange(start as int, end as int)),
        decreases end,
    {
        proof {
            assert(v@.subrange(start as int, end as int).drop_last() =~= v@.subrange(start as int, end - 1));
        }
        end = end - 1;
    }
    proof {
        let t = v@.subrange(start as int, end as int);
        if t.len() > 0 {
            assert(t.last() == v@[end - 1]);
        }
    }
    let token = slice_chars(&v, start, end);
    let s = string_from_chars(&token);
    from_str_rounding(s.as_str())
}

} // verus!
