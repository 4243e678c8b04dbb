//! Firstrade OFX statements: the date grammar of the OFX fields and the
//! statement-level checks.
use vstd::prelude::*;
use crate::date::{Date, DateView, valid_ymd};
use crate::decimal::Decimal;
use crate::text::{is_white_space, skip_white_space, trim_start};
use vstd::utf8::{encode_utf8, is_ascii_chars, is_ascii_chars_encode_utf8};

verus! {

pub open spec fn is_ascii_digit(c: char) -> bool {
    '0' <= c && c <= '9'
}

pub open spec fn all_ascii_digits(s: Seq<char>) -> bool {
    forall|i: int| 0 <= i < s.len() ==> is_ascii_digit(#[trigger] s[i])
}

pub open spec fn all_zero_chars(s: Seq<char>) -> bool {
    forall|i: int| 0 <= i < s.len() ==> #[trigger] s[i] == '0'
}

/// The number that a run of decimal digits denotes.
pub open spec fn digits_value(s: Seq<char>) -> int
    decreases s.len(),
{
    if s.len() == 0 {
        0
    } else {
        digits_value(s.drop_last()) * 10 + (s.last() as int - '0' as int)
    }
}

/// How many ASCII digits `s` starts with.
pub open spec fn leading_digits(s: Seq<char>) -> nat
    decreases s.len(),
{
    if s.len() > 0 && is_ascii_digit(s[0]) {
        1 + leading_digits(s.drop_first())
    } else {
        0
    }
}

/// A number of one to `max` ASCII digits at the start of `s`, as many as
/// there are: its value and the text after it.
pub open spec fn scan_number(s: Seq<char>, max: nat) -> Option<(int, Seq<char>)> {
    let k = if leading_digits(s) < max {
        leading_digits(s)
    } else {
        max
    };
    if k == 0 {
        None
    } else {
        Some((digits_value(s.take(k as int)), s.skip(k as int)))
    }
}

/// The `%Y` field: after white space, a signed number of any length, or an
/// unsigned one of at most four digits.
pub open spec fn scan_year(s: Seq<char>) -> Option<(int, Seq<char>)> {
    let t = trim_start(s);
    if t.len() > 0 && t[0] == '-' {
        match scan_number(t.drop_first(), t.len()) {
            Some((v, rest)) => Some((-v, rest)),
            None => None,
        }
    } else if t.len() > 0 && t[0] == '+' {
        scan_number(t.drop_first(), t.len())
    } else {
        scan_number(t, 4)
    }
}

/// The `%m` or `%d` field: after white space, one or two digits.
pub open spec fn scan_two_digits(s: Seq<char>) -> Option<(int, Seq<char>)> {
    scan_number(trim_start(s), 2)
}

/// The fields of the format `%Y%m%d` and the text after them.
pub open spec fn ymd_fields(s: Seq<char>) -> Option<(int, int, int, Seq<char>)> {
    match scan_year(s) {
        Some((y, r1)) => match scan_two_digits(r1) {
            Some((m, r2)) => match scan_two_digits(r2) {
                Some((d, r3)) => Some((y, m, d, r3)),
                None => None,
            },
            None => None,
        },
        None => None,
    }
}

/// The date an OFX date text denotes, if it denotes one: the text is read
/// with the format `%Y%m%d000000` when it is fourteen bytes long, else with
/// `%Y%m%d`, and the fields must make a valid date.
pub open spec fn spec_parse_date(s: Seq<char>) -> Option<DateView> {
    let long = encode_utf8(s).len() == 14;
    match ymd_fields(s) {
        Some((y, m, d, rest)) => if (if long {
            rest.len() == 6 && all_zero_chars(rest)
        } else {
            rest.len() == 0
        }) && valid_ymd(y, m, d) {
            Some(DateView { year: y, month: m, day: d })
        } else {
            None
        },
        None => None,
    }
}

/// A date of eight digits followed by six zeros (a midnight time of day) is
/// the same date.
pub proof fn lemma_long_form_same_date(s: Seq<char>)
    requires
        s.len() == 8,
        all_ascii_digits(s),
    ensures
        spec_parse_date(s + seq!['0', '0', '0', '0', '0', '0']) == spec_parse_date(s),
{
    let z = seq!['0', '0', '0', '0', '0', '0'];
    let long = s + z;
    assert(all_ascii_digits(long));
    assert(is_ascii_chars(s));
    assert(is_ascii_chars(long));
    is_ascii_chars_encode_utf8(s);
    is_ascii_chars_encode_utf8(long);
    lemma_all_digits_fields(s);
    lemma_all_digits_fields(long);
    assert(long.take(4) =~= s.take(4));
    assert(long.skip(4).take(2) =~= s.skip(4).take(2));
    assert(long.skip(4).skip(2).take(2) =~= s.skip(4).skip(2).take(2));
    assert(long.skip(4).skip(2).skip(2) =~= z);
}

proof fn lemma_leading_digits_all(s: Seq<char>)
    requires
        all_ascii_digits(s),
    ensures
        leading_digits(s) == s.len(),
    decreases s.len(),
{
    if s.len() > 0 {
        assert(all_ascii_digits(s.drop_first()));
        lemma_leading_digits_all(s.drop_first());
    }
}

/// The fields of a text of at least eight digits are its first four, the
/// next two and the next two.
proof fn lemma_all_digits_fields(s: Seq<char>)
    requires
        s.len() >= 8,
        all_ascii_digits(s),
    ensures
        ymd_fields(s) == Some(
            (
                digits_value(s.take(4)),
                digits_value(s.skip(4).take(2)),
                digits_value(s.skip(4).skip(2).take(2)),
                s.skip(4).skip(2).skip(2),
            ),
        ),
{
    let r1 = s.skip(4);
    let r2 = r1.skip(2);
    assert(!is_white_space(s[0]));
    assert(!is_white_space(r1[0]));
    assert(!is_white_space(r2[0]));
    assert(all_ascii_digits(r1));
    assert(all_ascii_digits(r2));
    lemma_leading_digits_all(s);
    lemma_leading_digits_all(r1);
    lemma_leading_digits_all(r2);
}

/// The text is not a date in the OFX date format.
#[derive(Debug, Clone, Copy, PartialEq, Eq, Structural)]
pub struct InvalidDate;

proof fn lemma_digits_value_bound(s: Seq<char>)
    requires
        all_ascii_digits(s),
    ensures
        0 <= digits_value(s),
        s.len() <= 1 ==> digits_value(s) < 10,
        s.len() <= 2 ==> digits_value(s) < 100,
        s.len() <= 3 ==> digits_value(s) < 1000,
        s.len() <= 4 ==> digits_value(s) < 10000,
    decreases s.len(),
{
    if s.len() > 0 {
        assert(is_ascii_digit(s[s.len() - 1]));
        assert(all_ascii_digits(s.drop_last()));
        lemma_digits_value_bound(s.drop_last());
    }
}

/// A bound above every year a date can have, at which numbers are capped
/// while they are read.
pub const NUMBER_CAP: u64 = 1000000;

pub open spec fn capped(v: int) -> int {
    if v < NUMBER_CAP {
        v
    } else {
        NUMBER_CAP as int
    }
}

proof fn lemma_leading_digits_at_least(t: Seq<char>, k: int)
    requires
        0 <= k <= t.len(),
        all_ascii_digits(t.take(k)),
    ensures
        leading_digits(t) >= k,
        (k == t.len() || !is_ascii_digit(t[k])) ==> leading_digits(t) == k,
    decreases k,
{
    if k > 0 {
        assert(is_ascii_digit(t.take(k)[0]));
        assert(t.drop_first().take(k - 1) =~= t.take(k).drop_first());
        assert(all_ascii_digits(t.drop_first().take(k - 1)));
        lemma_leading_digits_at_least(t.drop_first(), k - 1);
        if k < t.len() {
            assert(t.drop_first()[k - 1] == t[k]);
        }
    }
}

/// Reads a number of one to `max` digits at position `i`, as `scan_number`
/// does; its value is capped at `NUMBER_CAP`.
fn scan_number_at(s: &str, i: usize, max: usize) -> (r: Option<(u64, usize)>)
    requires
        i <= s@.len(),
    ensures
        match scan_number(s@.subrange(i as int, s@.len() as int), max as nat) {
            None => r is None,
            Some((v, rest)) => r matches Some((w, j)) && w == capped(v) && i <= j <= s@.len()
                && s@.subrange(j as int, s@.len() as int) == rest,
        },
{
    let n = s.unicode_len();
    let ghost t = s@.subrange(i as int, n as int);
    let mut j = i;
    let mut value: u64 = 0;
    while j < n && j - i < max && is_digit_char(s.get_char(j))
        invariant
            n == s@.len(),
            t == s@.subrange(i as int, n as int),
            i <= j <= n,
            j - i <= max,
            all_ascii_digits(t.take(j - i)),
            value == capped(digits_value(t.take(j - i))),
            value <= NUMBER_CAP,
        decreases n - j,
    {
        let c = s.get_char(j);
        let ghost k = j - i;
        proof {
            assert(t[k] == c);
            assert(t.take(k + 1).drop_last() =~= t.take(k));
            assert(all_ascii_digits(t.take(k + 1)));
            lemma_digits_value_bound(t.take(k));
        }
        let digit = (c as u64) - ('0' as u64);
        let next = value * 10 + digit;
        value = if next < NUMBER_CAP { next } else { NUMBER_CAP };
        j = j + 1;
    }
    let ghost k = j - i;
    proof {
        if j < n && j - i < max {
            assert(t[k] == s@[j as int]);
        }
        lemma_leading_digits_at_least(t, k);
        assert(t.skip(k) =~= s@.subrange(j as int, n as int));
    }
    if j == i {
        None
    } else {
        Some((value, j))
    }
}

fn is_digit_char(c: char) -> (r: bool)
    ensures
        r == is_ascii_digit(c),
{
    '0' <= c && c <= '9'
}

/// Whether `s[from..to]` consists of the character `0` only.
fn zeros_only(s: &str, from: usize, to: usize) -> (r: bool)
    requires
        from <= to <= s@.len(),
    ensures
        r == all_zero_chars(s@.subrange(from as int, to as int)),
{
    let mut i = from;
    while i < to
        invariant
            from <= i <= to <= s@.len(),
            all_zero_chars(s@.subrange(from as int, i as int)),
        decreases to - i,
    {
        let c = s.get_char(i);
        if c != '0' {
            assert(s@.subrange(from as int, to as int)[i - from] == c);
            return false;
        }
        assert(forall|k: int|
            0 <= k < i + 1 - from ==> s@.subrange(from as int, i + 1)[k] == #[trigger] s@[from
                + k]);
        assert(forall|k: int|
            0 <= k < i - from ==> s@.subrange(from as int, i as int)[k] == #[trigger] s@[from
                + k]);
        i = i + 1;
    }
    true
}

/// Parses a date of a Firstrade OFX statement with the format
/// `%Y%m%d000000` when the text is fourteen bytes long, else with `%Y%m%d`.
pub fn parse_date(date: &str) -> (r: Result<Date, InvalidDate>)
    ensures
        r is Ok <==> spec_parse_date(date@) is Some,
        r matches Ok(d) ==> spec_parse_date(date@) == Some(d@),
{
    let n = date.unicode_len();
    let long = date.as_bytes().len() == 14;
    proof {
        assert(date@.subrange(0, n as int) =~= date@);
    }
    // The year.
    let i = skip_white_space(date, 0);
    let ghost t = date@.subrange(i as int, n as int);
    let negative = i < n && date.get_char(i) == '-';
    let signed = negative || (i < n && date.get_char(i) == '+');
    let start = if signed { i + 1 } else { i };
    let max = if signed { n - i } else { 4 };
    proof {
        if signed {
            assert(t[0] == date@[i as int]);
            assert(t.drop_first() =~= date@.subrange(i + 1, n as int));
        } else if i < n {
            assert(t[0] == date@[i as int]);
        }
    }
    let (year_abs, i) = match scan_number_at(date, start, max) {
        Some(found) => found,
        None => return Err(InvalidDate),
    };
    if negative && year_abs > 262144 || !negative && year_abs > 262143 {
        return Err(InvalidDate);
    }
    let year: i32 = if negative { -(year_abs as i32) } else { year_abs as i32 };
    // The month.
    let i = skip_white_space(date, i);
    let (month, i) = match scan_number_at(date, i, 2) {
        Some(found) => found,
        None => return Err(InvalidDate),
    };
    // The day.
    let i = skip_white_space(date, i);
    let (day, i) = match scan_number_at(date, i, 2) {
        Some(found) => found,
        None => return Err(InvalidDate),
    };
    proof {
        let r1 = scan_year(date@).unwrap().1;
        let r2 = scan_two_digits(r1).unwrap().1;
        let r3 = scan_two_digits(r2).unwrap().1;
        lemma_scan_bound(trim_start(r1), 2);
        lemma_scan_bound(trim_start(r2), 2);
        assert(date@.subrange(i as int, n as int) == r3);
        assert(scan_year(date@).unwrap().0 == year as int);
        assert(scan_two_digits(r1).unwrap().0 == month as int);
        assert(scan_two_digits(r2).unwrap().0 == day as int);
        assert(ymd_fields(date@) == Some((year as int, month as int, day as int, r3)));
        assert(long == (encode_utf8(date@).len() == 14));
    }
    // What follows the fields.
    let rest_ok = if long {
        n - i == 6 && zeros_only(date, i, n)
    } else {
        i == n
    };
    if !rest_ok {
        return Err(InvalidDate);
    }
    match Date::from_ymd_opt(year, month as u32, day as u32) {
        Some(d) => Ok(d),
        None => Err(InvalidDate),
    }
}

/// A field of at most two digits is below 100.
proof fn lemma_scan_bound(s: Seq<char>, max: nat)
    requires
        max <= 2,
    ensures
        scan_number(s, max) matches Some((v, _)) ==> 0 <= v < 100,
{
    let k = if leading_digits(s) < max {
        leading_digits(s)
    } else {
        max
    };
    if k > 0 {
        lemma_leading_digits_prefix(s, k as int);
        lemma_digits_value_bound(s.take(k as int));
    }
}

proof fn lemma_leading_digits_prefix(s: Seq<char>, k: int)
    requires
        0 <= k <= leading_digits(s),
    ensures
        k <= s.len(),
        all_ascii_digits(s.take(k)),
    decreases k,
{
    if k > 0 {
        lemma_leading_digits_prefix(s.drop_first(), k - 1);
        assert forall|j: int| 0 <= j < k implies is_ascii_digit(#[trigger] s.take(k)[j]) by {
            if j > 0 {
                assert(s.take(k)[j] == s.drop_first().take(k - 1)[j - 1]);
            }
        }
    }
}

// ---------------------------------------------------------------------------
// Statement periods.
// ---------------------------------------------------------------------------

/// The statement period is empty: it ends before it starts.
#[derive(Debug, Clone, Copy, PartialEq, Eq, Structural)]
pub struct InvalidPeriod;

/// The half-open period `[start, end + 1 day)` of a statement whose last
/// day is `end`, where it is not empty.
pub fn parse_period(start: Date, end: Date) -> (r: Result<(Date, Date), InvalidPeriod>)
    requires
        !end@.is_last(),
    ensures
        r is Ok <==> start@.ordinal() < end@.next_day().ordinal(),
        r matches Ok(period) ==> period.0@ == start@ && period.1@ == end@.next_day(),
{
    let period = (start, end.succ());
    if !period.0.is_before(&period.1) {
        return Err(InvalidPeriod);
    }
    Ok(period)
}

// ---------------------------------------------------------------------------
// The statement being assembled.
// ---------------------------------------------------------------------------

/// Why a statement could not be assembled.
#[derive(Debug, Clone, Copy, PartialEq, Eq, Structural)]
pub enum StatementError {
    /// The statement period was given twice.
    DuplicatePeriod,
    /// Whether the account had assets at the start was given twice.
    DuplicateStartingAssets,
    /// The statement period was not found.
    MissingPeriod,
    /// Nothing was found about the assets at the start of the period.
    MissingStartingAssets,
}

/// A broker statement while it is being assembled from its sections.
#[derive(Debug)]
pub struct PartialBrokerStatement {
    /// The half-open period `[start, end)` the statement covers.
    pub period: Option<(Date, Date)>,
    /// Whether the account held assets when the period started.
    pub starting_assets: Option<bool>,
}

pub open spec fn period_view(p: Option<(Date, Date)>) -> Option<(DateView, DateView)> {
    match p {
        Some((a, b)) => Some((a@, b@)),
        None => None,
    }
}

impl PartialBrokerStatement {
    pub fn new() -> (r: PartialBrokerStatement)
        ensures
            r.period is None,
            r.starting_assets is None,
    {
        PartialBrokerStatement { period: None, starting_assets: None }
    }

    /// Records the statement period; it may be given once only.
    pub fn set_period(&mut self, period: (Date, Date)) -> (r: Result<(), StatementError>)
        ensures
            r is Ok <==> old(self).period is None,
            r is Err ==> r == Err::<(), StatementError>(StatementError::DuplicatePeriod),
            r is Err ==> final(self).period == old(self).period,
            r is Err ==> final(self).starting_assets == old(self).starting_assets,
            r is Ok ==> final(self).period == Some(period),
            r is Ok ==> final(self).starting_assets == old(self).starting_assets,
    {
        if self.period.is_some() {
            return Err(StatementError::DuplicatePeriod);
        }
        self.period = Some(period);
        Ok(())
    }

    /// Records whether the account held assets at the start; it may be given
    /// once only.
    pub fn set_starting_assets(&mut self, exists: bool) -> (r: Result<(), StatementError>)
        ensures
            r is Ok <==> old(self).starting_assets is None,
            r is Err ==> r == Err::<(), StatementError>(StatementError::DuplicateStartingAssets),
            r is Err ==> final(self).starting_assets == old(self).starting_assets,
            r is Err ==> final(self).period == old(self).period,
            r is Ok ==> final(self).starting_assets == Some(exists),
            r is Ok ==> final(self).period == old(self).period,
    {
        if self.starting_assets.is_some() {
            return Err(StatementError::DuplicateStartingAssets);
        }
        self.starting_assets = Some(exists);
        Ok(())
    }

    /// The statement, once its period and starting assets are known.
    pub fn validate(self) -> (r: Result<PartialBrokerStatement, StatementError>)
        ensures
            self.period is None ==> r == Err::<PartialBrokerStatement, StatementError>(
                StatementError::MissingPeriod,
            ),
            self.period is Some && self.starting_assets is None ==> r == Err::<
                PartialBrokerStatement,
                StatementError,
            >(StatementError::MissingStartingAssets),
            self.period is Some && self.starting_assets is Some ==> r == Ok::<
                PartialBrokerStatement,
                StatementError,
            >(self),
    {
        if self.period.is_none() {
            return Err(StatementError::MissingPeriod);
        }
        if self.starting_assets.is_none() {
            return Err(StatementError::MissingStartingAssets);
        }
        Ok(self)
    }
}

// ---------------------------------------------------------------------------
// The OFX document.
// ---------------------------------------------------------------------------

/// A part of the document whose content is not read.
#[derive(Debug, Clone, Copy, PartialEq, Eq, Structural)]
pub struct Ignore {}

/// A field that holds a decimal number.
#[derive(Debug, Clone, Copy)]
pub struct DecimalField {
    pub value: Decimal,
}

/// The transaction list: the first and the last day it covers.
#[derive(Debug, Clone, Copy)]
pub struct Transactions {
    pub start_date: Date,
    pub end_date: Date,
}

/// The investment statement report.
#[derive(Debug, Clone)]
pub struct Report {
    /// The day the report was made.
    pub date: Date,
    pub currency: String,
    pub transactions: Transactions,
}

#[derive(Debug, Clone)]
pub struct StatementResponse {
    pub report: Report,
}

#[derive(Debug, Clone)]
pub struct StatementSection {
    pub response: StatementResponse,
}

/// A Firstrade OFX statement.
#[derive(Debug, Clone)]
pub struct OFX {
    pub statement: StatementSection,
}

/// Why an OFX statement was refused.
#[derive(Debug, Clone, Copy, PartialEq, Eq, Structural)]
pub enum OfxError {
    /// The transaction list ends before it starts.
    InvalidPeriod,
    /// The report was not made within the period that its transactions
    /// cover: Firstrade reports always cover the time from the opening of
    /// the account to the day the report is made.
    ReportDateOutsidePeriod,
    Statement(StatementError),
}

impl OFX {
    pub open spec fn report(&self) -> Report {
        self.statement.response.report
    }

    /// The statement the document describes: its period runs from the first
    /// day of the transaction list to the day after its last day, and the
    /// report must have been made within that period.
    pub fn parse(self) -> (r: Result<PartialBrokerStatement, OfxError>)
        requires
            !self.report().transactions.end_date@.is_last(),
        ensures
            ({
                let start = self.report().transactions.start_date@;
                let end = self.report().transactions.end_date@.next_day();
                let date = self.report().date@;
                &&& (start.ordinal() >= end.ordinal()) ==> r == Err::<
                    PartialBrokerStatement,
                    OfxError,
                >(OfxError::InvalidPeriod)
                &&& (start.ordinal() < end.ordinal() && (date.ordinal() < start.ordinal()
                    || end.ordinal() <= date.ordinal())) ==> r == Err::<
                    PartialBrokerStatement,
                    OfxError,
                >(OfxError::ReportDateOutsidePeriod)
                &&& r is Ok <==> (start.ordinal() <= date.ordinal() && date.ordinal()
                    < end.ordinal())
                &&& r matches Ok(s) ==> period_view(s.period) == Some((start, end))
                    && s.starting_assets == Some(false)
            }),
    {
        let report = self.statement.response.report;
        let transactions = report.transactions;
        let (start_date, end_date) = match parse_period(
            transactions.start_date,
            transactions.end_date,
        ) {
            Ok(period) => period,
            Err(_) => return Err(OfxError::InvalidPeriod),
        };
        if report.date.is_before(&start_date) || !report.date.is_before(&end_date) {
            return Err(OfxError::ReportDateOutsidePeriod);
        }
        let mut statement = PartialBrokerStatement::new();
        if let Err(e) = statement.set_period((start_date, end_date)) {
            return Err(OfxError::Statement(e));
        }
        if let Err(e) = statement.set_starting_assets(false) {
            return Err(OfxError::Statement(e));
        }
        match statement.validate() {
            Ok(s) => Ok(s),
            Err(e) => Err(OfxError::Statement(e)),
        }
    }
}

} // verus!
