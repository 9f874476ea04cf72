//! Era-based calendar dates: one boundary table for the three imperial eras,
//! one validator, and two parsers — the fixed-width numeric form used when
//! building a query, and the free-text era form found on scraped pages.

use vstd::prelude::*;

use crate::error::Error;
use crate::text::{
    chars_vec, dec_digit, dec_val, group_val, is_dec_digit, lemma_dec_val_bound4,
    parse_digit_group,
};

verus! {

/// The imperial eras the source site uses, oldest first.
#[derive(Clone, Copy, Debug, PartialEq, Eq, Structural)]
pub enum Era {
    Showa,
    Heisei,
    Reiwa,
}

/// The Gregorian year before each era's first year: era-year 1 falls in the
/// calendar year `era_base_year(era) + 1`. The single source of truth for
/// the era arithmetic.
pub open spec fn spec_era_base_year(era: Era) -> int {
    match era {
        Era::Showa => 1925,
        Era::Heisei => 1988,
        Era::Reiwa => 2018,
    }
}

/// Executable era base-year lookup.
pub fn era_base_year(era: Era) -> (y: usize)
    ensures
        y == spec_era_base_year(era),
{
    match era {
        Era::Showa => 1925,
        Era::Heisei => 1988,
        Era::Reiwa => 2018,
    }
}

/// The comparison key of a calendar date: `year * 10000 + month * 100 + day`.
pub open spec fn date_key(year: int, month: int, day: int) -> int {
    year * 10000 + month * 100 + day
}

/// First day of Showa, 1926-12-25, as a date key.
pub const SHOWA_START_KEY: usize = 19261225;

/// First day of Heisei, 1989-01-08, as a date key.
pub const HEISEI_START_KEY: usize = 19890108;

/// First day of Reiwa, 2019-05-01, as a date key.
pub const REIWA_START_KEY: usize = 20190501;

/// The era whose closed range holds the date key `k`: Showa runs from its
/// start to 1989-01-07, Heisei to 2019-04-30, Reiwa onward. A key before
/// Showa's start belongs to no era the table knows.
pub open spec fn era_of_key(k: int) -> Option<Era> {
    if k < SHOWA_START_KEY {
        None
    } else if k < HEISEI_START_KEY {
        Some(Era::Showa)
    } else if k < REIWA_START_KEY {
        Some(Era::Heisei)
    } else {
        Some(Era::Reiwa)
    }
}

/// A calendar value carrying the era tag, the year count within the era,
/// and the proleptic Gregorian date it denotes.
#[derive(Clone, Copy, Debug, PartialEq, Eq, Structural)]
pub struct EraDate {
    pub era: Era,
    pub era_year: usize,
    pub year: usize,
    pub month: usize,
    pub day: usize,
}

impl EraDate {
    /// The invariant every constructed date satisfies: the Gregorian year is
    /// the era base year plus the era year, the month and day are within
    /// their syntactic bounds, the year fits the fixed four-digit numeric
    /// form, and the composed date falls inside its era's range.
    pub open spec fn wf(self) -> bool {
        &&& 1 <= self.month <= 12
        &&& 1 <= self.day <= 31
        &&& self.year <= 9999
        &&& 1 <= self.era_year
        &&& self.year == spec_era_base_year(self.era) + self.era_year
        &&& era_of_key(date_key(self.year as int, self.month as int, self.day as int))
            == Some(self.era)
    }
}

/// Whether year, month and day lie within the bounds the date model admits:
/// syntactic month and day ranges, and a year of at most four digits.
pub open spec fn ymd_in_bounds(year: int, month: int, day: int) -> bool {
    &&& 1 <= month <= 12
    &&& 1 <= day <= 31
    &&& 0 <= year <= 9999
}

/// The result `from_ymd` owes for every input.
pub open spec fn spec_from_ymd(year: int, month: int, day: int) -> Result<EraDate, Error> {
    if !ymd_in_bounds(year, month, day) {
        Err(Error::DateRange)
    } else {
        match era_of_key(date_key(year, month, day)) {
            Some(era) => Ok(
                EraDate {
                    era,
                    era_year: (year - spec_era_base_year(era)) as usize,
                    year: year as usize,
                    month: month as usize,
                    day: day as usize,
                },
            ),
            None => Err(Error::DateRange),
        }
    }
}

/// Resolves a Gregorian date against the era boundary table.
/// Fails with `Error::DateRange` exactly when month, day or year leaves
/// its syntactic bound, or the date precedes the start of Showa.
pub fn from_ymd(year: usize, month: usize, day: usize) -> (r: Result<EraDate, Error>)
    ensures
        r == spec_from_ymd(year as int, month as int, day as int),
        r matches Ok(d) ==> d.wf() && d.year == year && d.month == month && d.day == day,
{
    if !(1 <= month && month <= 12 && 1 <= day && day <= 31 && year <= 9999) {
        return Err(Error::DateRange);
    }
    let key = year * 10000 + month * 100 + day;
    proof {
        assert(key == date_key(year as int, month as int, day as int));
    }
    if key < SHOWA_START_KEY {
        Err(Error::DateRange)
    } else if key < HEISEI_START_KEY {
        Ok(
            EraDate {
                era: Era::Showa,
                era_year: year - 1925,
                year,
                month,
                day,
            },
        )
    } else if key < REIWA_START_KEY {
        Ok(
            EraDate {
                era: Era::Heisei,
                era_year: year - 1988,
                year,
                month,
                day,
            },
        )
    } else {
        Ok(
            EraDate {
                era: Era::Reiwa,
                era_year: year - 2018,
                year,
                month,
                day,
            },
        )
    }
}

/// The result `from_era_ymd` owes: the era is given, the Gregorian year is
/// derived from the era year, and the composed date must fall in the given
/// era's own range.
pub open spec fn spec_from_era_ymd(era: Era, era_year: int, month: int, day: int) -> Result<
    EraDate,
    Error,
> {
    let year = spec_era_base_year(era) + era_year;
    if !(1 <= month <= 12 && 1 <= day <= 31 && 1 <= era_year && year <= 9999) {
        Err(Error::DateRange)
    } else if era_of_key(date_key(year, month, day)) == Some(era) {
        Ok(
            EraDate {
                era,
                era_year: era_year as usize,
                year: year as usize,
                month: month as usize,
                day: day as usize,
            },
        )
    } else {
        Err(Error::DateRange)
    }
}

/// Composes an era-tagged date and validates it against the boundary table.
/// Fails with `Error::DateRange` exactly when month or day is out of its
/// syntactic range, the year leaves the four-digit form, or the date does
/// not fall inside the named era.
pub fn from_era_ymd(era: Era, era_year: usize, month: usize, day: usize) -> (r: Result<
    EraDate,
    Error,
>)
    ensures
        r == spec_from_era_ymd(era, era_year as int, month as int, day as int),
        r matches Ok(d) ==> d.wf() && d.era == era && d.era_year == era_year && d.month == month
            && d.day == day,
{
    if !(1 <= month && month <= 12 && 1 <= day && day <= 31 && 1 <= era_year) {
        return Err(Error::DateRange);
    }
    let base = era_base_year(era);
    if era_year > 9999 - base {
        return Err(Error::DateRange);
    }
    let year = base + era_year;
    let key = year * 10000 + month * 100 + day;
    proof {
        assert(key == date_key(year as int, month as int, day as int));
    }
    let in_era = if key < SHOWA_START_KEY {
        false
    } else if key < HEISEI_START_KEY {
        matches!(era, Era::Showa)
    } else if key < REIWA_START_KEY {
        matches!(era, Era::Heisei)
    } else {
        matches!(era, Era::Reiwa)
    };
    if in_era {
        Ok(EraDate { era, era_year, year, month, day })
    } else {
        Err(Error::DateRange)
    }
}

/// The value of the fixed-width group `s[a..b]` (clamped to the length of
/// `s`), as the numeric date format slices it.
pub open spec fn numeric_group(s: Seq<char>, a: int, b: int) -> Option<int> {
    group_val(
        s,
        if a < s.len() {
            a
        } else {
            s.len() as int
        },
        if b < s.len() {
            b
        } else {
            s.len() as int
        },
    )
}

/// What `parse_numeric` owes for every input string: the year is the first
/// four characters, the month the two after one separator, the day the two
/// after another; each group must be non-empty and all digits, the month
/// and day within their syntactic bounds, and the composed date within a
/// known era. Every failure is `Error::DateRange`.
pub open spec fn spec_parse_numeric(s: Seq<char>) -> Result<EraDate, Error> {
    match (numeric_group(s, 0, 4), numeric_group(s, 5, 7), numeric_group(s, 8, 10)) {
        (Some(y), Some(m), Some(d)) => if 1 <= m <= 12 && 1 <= d <= 31 {
            spec_from_ymd(y, m, d)
        } else {
            Err(Error::DateRange)
        },
        _ => Err(Error::DateRange),
    }
}

/// Parses a date in the fixed numeric layout `yyyy?mm?dd` (any single
/// separator characters): fixed-width slicing, syntactic month and day
/// bounds, then era resolution by the boundary table.
pub fn parse_numeric(s: &str) -> (r: Result<EraDate, Error>)
    ensures
        r == spec_parse_numeric(s@),
{
    let v = chars_vec(s);
    let n = v.len();
    let y_end: usize = if 4 < n { 4 } else { n };
    let m_start: usize = if 5 < n { 5 } else { n };
    let m_end: usize = if 7 < n { 7 } else { n };
    let d_start: usize = if 8 < n { 8 } else { n };
    let d_end: usize = if 10 < n { 10 } else { n };
    let y = parse_digit_group(&v, 0, y_end);
    let m = parse_digit_group(&v, m_start, m_end);
    let d = parse_digit_group(&v, d_start, d_end);
    match (y, m, d) {
        (Some(y), Some(m), Some(d)) => {
            proof {
                lemma_dec_val_bound4(v@.subrange(0, y_end as int));
                lemma_dec_val_bound4(v@.subrange(m_start as int, m_end as int));
                lemma_dec_val_bound4(v@.subrange(d_start as int, d_end as int));
            }
            if 1 <= m && m <= 12 && 1 <= d && d <= 31 {
                from_ymd(y, m, d)
            } else {
                Err(Error::DateRange)
            }
        },
        _ => Err(Error::DateRange),
    }
}

/// The fixed percent-encoded UTF-8 spelling of each era name, for
/// embedding in a query string; the input alphabet is closed, so the three
/// outputs are constants.
pub open spec fn spec_era_uri_encode(era: Era) -> Seq<char> {
    match era {
        Era::Showa => "%E6%98%AD%E5%92%8C"@,
        Era::Heisei => "%E5%B9%B3%E6%88%90"@,
        Era::Reiwa => "%E4%BB%A4%E5%92%8C"@,
    }
}

/// The percent-encoded era name used in listing-query URLs.
pub fn era_uri_encode(era: Era) -> (r: &'static str)
    ensures
        r@ == spec_era_uri_encode(era),
{
    match era {
        Era::Showa => "%E6%98%AD%E5%92%8C",
        Era::Heisei => "%E5%B9%B3%E6%88%90",
        Era::Reiwa => "%E4%BB%A4%E5%92%8C",
    }
}

/// Boundary exactness of the era table: each era's first day resolves to
/// that era, and the day just below resolves to the era before it (or, for
/// the oldest era, to no era at all).
pub proof fn lemma_era_boundaries()
    ensures
        era_of_key(19261225) == Some(Era::Showa),
        era_of_key(19261224) is None,
        era_of_key(19890108) == Some(Era::Heisei),
        era_of_key(19890107) == Some(Era::Showa),
        era_of_key(20190501) == Some(Era::Reiwa),
        era_of_key(20190430) == Some(Era::Heisei),
{
}

/// A date the validator accepts satisfies the full invariant.
pub proof fn lemma_spec_from_ymd_wf(year: int, month: int, day: int, d: EraDate)
    requires
        spec_from_ymd(year, month, day) == Ok::<EraDate, Error>(d),
    ensures
        d.wf(),
        d.year == year && d.month == month && d.day == day,
{
    let k = date_key(year, month, day);
    assert(k >= SHOWA_START_KEY ==> year >= 1926);
    assert(k < HEISEI_START_KEY ==> year <= 1989);
    assert(k >= HEISEI_START_KEY ==> year >= 1989);
    assert(k < REIWA_START_KEY ==> year <= 2019);
    assert(k >= REIWA_START_KEY ==> year >= 2019);
}

/// A well-formed date is determined by its calendar triple: the era tag
/// and the era year carry no information beyond (year, month, day), so
/// comparing dates by the reconstructed triple is the same as comparing
/// them whole.
pub proof fn lemma_date_determined_by_ymd(a: EraDate, b: EraDate)
    requires
        a.wf(),
        b.wf(),
        a.year == b.year,
        a.month == b.month,
        a.day == b.day,
    ensures
        a == b,
{
}

/// Round trip of the numeric parser: a date it accepts re-encodes, via the
/// era base-year table and the era year, to exactly the year, month and
/// day groups that were sliced from the input.
pub proof fn lemma_parse_numeric_round_trip(s: Seq<char>, d: EraDate)
    requires
        spec_parse_numeric(s) == Ok::<EraDate, Error>(d),
    ensures
        spec_era_base_year(d.era) + d.era_year == d.year,
        numeric_group(s, 0, 4) == Some(d.year as int),
        numeric_group(s, 5, 7) == Some(d.month as int),
        numeric_group(s, 8, 10) == Some(d.day as int),
        d.wf(),
{
    let y = numeric_group(s, 0, 4)->Some_0;
    let m = numeric_group(s, 5, 7)->Some_0;
    let dd = numeric_group(s, 8, 10)->Some_0;
    let g = s.subrange(
        0,
        if 4 < s.len() {
            4
        } else {
            s.len() as int
        },
    );
    lemma_dec_val_bound4(g);
    lemma_spec_from_ymd_wf(y, m, dd, d);
}

/// End of the run of decimal digits that starts at `i`: the first position
/// at or after `i` holding a non-digit, or the end of the string.
pub open spec fn run_end(s: Seq<char>, i: int) -> int
    decreases s.len() - i when 0 <= i <= s.len()
{
    if i < s.len() && is_dec_digit(s[i]) {
        run_end(s, i + 1)
    } else {
        i
    }
}

/// Start of the run of non-digits that ends just before `i`: the smallest
/// position from which every character up to `i` is a non-digit.
pub open spec fn nd_start(s: Seq<char>, i: int) -> int
    decreases i when 0 <= i <= s.len()
{
    if 1 <= i <= s.len() && !is_dec_digit(s[i - 1]) {
        nd_start(s, i - 1)
    } else {
        i
    }
}

pub proof fn lemma_run_end(s: Seq<char>, i: int)
    requires
        0 <= i <= s.len(),
    ensures
        i <= run_end(s, i) <= s.len(),
        forall|k: int| i <= k < run_end(s, i) ==> is_dec_digit(s[k]),
        run_end(s, i) == s.len() || !is_dec_digit(s[run_end(s, i)]),
        run_end(s, i) > i ==> is_dec_digit(s[i]),
    decreases s.len() - i,
{
    if i < s.len() && is_dec_digit(s[i]) {
        lemma_run_end(s, i + 1);
    }
}

pub proof fn lemma_nd_start(s: Seq<char>, i: int)
    requires
        0 <= i <= s.len(),
    ensures
        0 <= nd_start(s, i) <= i,
        forall|k: int| nd_start(s, i) <= k < i ==> !is_dec_digit(s[k]),
        nd_start(s, i) == 0 || is_dec_digit(s[nd_start(s, i) - 1]),
    decreases i,
{
    if 1 <= i <= s.len() && !is_dec_digit(s[i - 1]) {
        lemma_nd_start(s, i - 1);
    }
}

/// Whether the first era-text shape — era name, numeric era year, `年`,
/// month, `月`, day, `日` — matches with its era-year digit run starting
/// at `i`. The era name is the non-digit run immediately before `i`, so a
/// match needs at least one non-digit there.
pub open spec fn q1_at(s: Seq<char>, i: int) -> bool {
    &&& 1 <= i < s.len()
    &&& !is_dec_digit(s[i - 1])
    &&& is_dec_digit(s[i])
    &&& {
        let ye = run_end(s, i);
        &&& ye < s.len()
        &&& s[ye] == '年'
        &&& {
            let me = run_end(s, ye + 1);
            &&& me > ye + 1
            &&& me < s.len()
            &&& s[me] == '月'
            &&& {
                let de = run_end(s, me + 1);
                &&& de > me + 1
                &&& de < s.len()
                &&& s[de] == '日'
            }
        }
    }
}

/// Whether the second era-text shape — era name, the literal `元年`
/// (era year one), month, `月`, day, `日` — matches with its `元` at `i`.
pub open spec fn q2_at(s: Seq<char>, i: int) -> bool {
    &&& 0 <= i
    &&& i + 2 < s.len()
    &&& s[i] == '元'
    &&& s[i + 1] == '年'
    &&& is_dec_digit(s[i + 2])
    &&& nd_start(s, i) < i
    &&& {
        let me = run_end(s, i + 2);
        &&& me < s.len()
        &&& s[me] == '月'
        &&& {
            let de = run_end(s, me + 1);
            &&& de > me + 1
            &&& de < s.len()
            &&& s[de] == '日'
        }
    }
}

/// The leftmost position at or after `i` where the first shape matches,
/// `-1` when none does.
pub open spec fn find_q1(s: Seq<char>, i: int) -> int
    decreases s.len() - i when 0 <= i
{
    if i >= s.len() {
        -1
    } else if q1_at(s, i) {
        i
    } else {
        find_q1(s, i + 1)
    }
}

/// The leftmost position at or after `i` where the second shape matches,
/// `-1` when none does.
pub open spec fn find_q2(s: Seq<char>, i: int) -> int
    decreases s.len() - i when 0 <= i
{
    if i >= s.len() {
        -1
    } else if q2_at(s, i) {
        i
    } else {
        find_q2(s, i + 1)
    }
}

proof fn lemma_find_q1_at(s: Seq<char>, j: int, i: int)
    requires
        0 <= j <= i <= s.len(),
        forall|k: int| j <= k < i ==> !q1_at(s, k),
        i == s.len() || q1_at(s, i),
    ensures
        find_q1(s, j) == if i == s.len() {
            -1
        } else {
            i
        },
    decreases i - j,
{
    if j < i {
        lemma_find_q1_at(s, j + 1, i);
    }
}

proof fn lemma_find_q2_at(s: Seq<char>, j: int, i: int)
    requires
        0 <= j <= i <= s.len(),
        forall|k: int| j <= k < i ==> !q2_at(s, k),
        i == s.len() || q2_at(s, i),
    ensures
        find_q2(s, j) == if i == s.len() {
            -1
        } else {
            i
        },
    decreases i - j,
{
    if j < i {
        lemma_find_q2_at(s, j + 1, i);
    }
}

/// The era a canonical full-width era name denotes.
pub open spec fn era_of_name(s: Seq<char>) -> Option<Era> {
    if s == seq!['昭', '和'] {
        Some(Era::Showa)
    } else if s == seq!['平', '成'] {
        Some(Era::Heisei)
    } else if s == seq!['令', '和'] {
        Some(Era::Reiwa)
    } else {
        None
    }
}

/// What `parse_era_text` owes for every input string. The first shape is
/// tried on the whole text; only when it matches nowhere is the `元年`
/// shape tried. For a match: an era-year group too large for `usize` fails
/// as `EraTextFormat` before the era name is read; an unrecognized era
/// name fails as `UnknownEra`; an oversized month or day group fails as
/// `EraTextFormat`; what remains is composed and validated by
/// `spec_from_era_ymd`. No match at all is `EraTextFormat`.
pub open spec fn spec_parse_era_text(s: Seq<char>) -> Result<EraDate, Error> {
    let i = find_q1(s, 0);
    if i >= 0 {
        let ye = run_end(s, i);
        let me = run_end(s, ye + 1);
        let de = run_end(s, me + 1);
        if dec_val(s.subrange(i, ye)) > usize::MAX {
            Err(Error::EraTextFormat)
        } else {
            match era_of_name(s.subrange(nd_start(s, i), i)) {
                None => Err(Error::UnknownEra),
                Some(era) => if dec_val(s.subrange(ye + 1, me)) > usize::MAX || dec_val(
                    s.subrange(me + 1, de),
                ) > usize::MAX {
                    Err(Error::EraTextFormat)
                } else {
                    spec_from_era_ymd(
                        era,
                        dec_val(s.subrange(i, ye)),
                        dec_val(s.subrange(ye + 1, me)),
                        dec_val(s.subrange(me + 1, de)),
                    )
                },
            }
        }
    } else {
        let j = find_q2(s, 0);
        if j >= 0 {
            let me = run_end(s, j + 2);
            let de = run_end(s, me + 1);
            match era_of_name(s.subrange(nd_start(s, j), j)) {
                None => Err(Error::UnknownEra),
                Some(era) => if dec_val(s.subrange(j + 2, me)) > usize::MAX || dec_val(
                    s.subrange(me + 1, de),
                ) > usize::MAX {
                    Err(Error::EraTextFormat)
                } else {
                    spec_from_era_ymd(
                        era,
                        1,
                        dec_val(s.subrange(j + 2, me)),
                        dec_val(s.subrange(me + 1, de)),
                    )
                },
            }
        } else {
            Err(Error::EraTextFormat)
        }
    }
}

/// Executable end-of-digit-run scan.
pub fn run_end_exec(v: &Vec<char>, i: usize) -> (r: usize)
    requires
        i <= v@.len(),
    ensures
        r == run_end(v@, i as int),
        i <= r <= v@.len(),
{
    let n = v.len();
    let mut j = i;
    while j < n && dec_digit(v[j])
        invariant
            i <= j <= n,
            n == v@.len(),
            run_end(v@, i as int) == run_end(v@, j as int),
        decreases n - j,
    {
        j = j + 1;
    }
    j
}

/// Executable start-of-non-digit-run scan.
fn nd_start_x(v: &Vec<char>, i: usize) -> (r: usize)
    requires
        i <= v@.len(),
    ensures
        r == nd_start(v@, i as int),
        r <= i,
{
    let mut j = i;
    while j >= 1 && !dec_digit(v[j - 1])
        invariant
            j <= i <= v@.len(),
            nd_start(v@, i as int) == nd_start(v@, j as int),
        decreases j,
    {
        j = j - 1;
    }
    j
}

/// Executable test for the first era-text shape at `i`.
fn q1_check(v: &Vec<char>, i: usize) -> (b: bool)
    requires
        i < v@.len(),
    ensures
        b == q1_at(v@, i as int),
{
    if i < 1 || dec_digit(v[i - 1]) || !dec_digit(v[i]) {
        return false;
    }
    let n = v.len();
    let ye = run_end_exec(v, i);
    if ye >= n || v[ye] != '年' {
        return false;
    }
    let me = run_end_exec(v, ye + 1);
    if me <= ye + 1 || me >= n || v[me] != '月' {
        return false;
    }
    let de = run_end_exec(v, me + 1);
    de > me + 1 && de < n && v[de] == '日'
}

/// Executable test for the `元年` shape at `i`.
fn q2_check(v: &Vec<char>, i: usize) -> (b: bool)
    requires
        i < v@.len(),
    ensures
        b == q2_at(v@, i as int),
{
    let n = v.len();
    if n < 3 || i >= n - 2 {
        return false;
    }
    if v[i] != '元' || v[i + 1] != '年' || !dec_digit(v[i + 2]) {
        return false;
    }
    if nd_start_x(v, i) >= i {
        return false;
    }
    let me = run_end_exec(v, i + 2);
    if me >= n || v[me] != '月' {
        return false;
    }
    let de = run_end_exec(v, me + 1);
    de > me + 1 && de < n && v[de] == '日'
}

/// The era named by the characters `v[a..b]`, if canonical.
fn era_from_span(v: &Vec<char>, a: usize, b: usize) -> (r: Option<Era>)
    requires
        a <= b <= v@.len(),
    ensures
        r == era_of_name(v@.subrange(a as int, b as int)),
{
    let ghost nm = v@.subrange(a as int, b as int);
    if b - a != 2 {
        proof {
            assert(nm.len() == b - a);
            assert(seq!['昭', '和'].len() == 2);
            assert(seq!['平', '成'].len() == 2);
            assert(seq!['令', '和'].len() == 2);
        }
        return None;
    }
    let c0 = v[a];
    let c1 = v[a + 1];
    proof {
        assert(nm.len() == 2);
        assert(nm[0] == c0);
        assert(nm[1] == c1);
    }
    if c0 == '昭' && c1 == '和' {
        proof {
            assert(nm =~= seq!['昭', '和']);
        }
        Some(Era::Showa)
    } else if c0 == '平' && c1 == '成' {
        proof {
            assert(nm =~= seq!['平', '成']);
        }
        Some(Era::Heisei)
    } else if c0 == '令' && c1 == '和' {
        proof {
            assert(nm =~= seq!['令', '和']);
        }
        Some(Era::Reiwa)
    } else {
        None
    }
}

/// Parses a free-text era date such as `平成31年4月30日` or `令和元年5月1日`.
/// The numeric-era-year shape is tried first over the whole text; only when
/// it matches nowhere is the `元年` (era year one) shape tried. The era
/// name must be one of the three canonical labels, and the composed date
/// must satisfy the boundary table.
pub fn parse_era_text(s: &str) -> (r: Result<EraDate, Error>)
    ensures
        r == spec_parse_era_text(s@),
{
    let v = chars_vec(s);
    let n = v.len();
    let mut i: usize = 0;
    while i < n && !q1_check(&v, i)
        invariant
            i <= n,
            n == v@.len(),
            v@ == s@,
            forall|k: int| 0 <= k < i ==> !q1_at(v@, k),
        decreases n - i,
    {
        i = i + 1;
    }
    proof {
        lemma_find_q1_at(v@, 0, i as int);
    }
    if i < n {
        // First shape found: era-year digits begin at i.
        let ye = run_end_exec(&v, i);
        proof {
            lemma_run_end(v@, i as int);
        }
        let era_start = nd_start_x(&v, i);
        let me = run_end_exec(&v, ye + 1);
        proof {
            lemma_run_end(v@, ye + 1);
        }
        let de = run_end_exec(&v, me + 1);
        proof {
            lemma_run_end(v@, me + 1);
        }
        let era_year = match parse_digit_group(&v, i, ye) {
            Some(ey) => ey,
            None => {
                return Err(Error::EraTextFormat);
            },
        };
        let era = match era_from_span(&v, era_start, i) {
            Some(e) => e,
            None => {
                return Err(Error::UnknownEra);
            },
        };
        let month = match parse_digit_group(&v, ye + 1, me) {
            Some(m) => m,
            None => {
                return Err(Error::EraTextFormat);
            },
        };
        let day = match parse_digit_group(&v, me + 1, de) {
            Some(d) => d,
            None => {
                return Err(Error::EraTextFormat);
            },
        };
        from_era_ymd(era, era_year, month, day)
    } else {
        // No first-shape match anywhere: try the 元年 shape.
        let mut j: usize = 0;
        while j < n && !q2_check(&v, j)
            invariant
                j <= n,
                n == v@.len(),
                v@ == s@,
                forall|k: int| 0 <= k < j ==> !q2_at(v@, k),
            decreases n - j,
        {
            j = j + 1;
        }
        proof {
            lemma_find_q2_at(v@, 0, j as int);
        }
        if j < n {
            let era_start = nd_start_x(&v, j);
            let me = run_end_exec(&v, j + 2);
            proof {
                lemma_run_end(v@, j + 2);
            }
            let de = run_end_exec(&v, me + 1);
            proof {
                lemma_run_end(v@, me + 1);
            }
            let era = match era_from_span(&v, era_start, j) {
                Some(e) => e,
                None => {
                    return Err(Error::UnknownEra);
                },
            };
            let month = match parse_digit_group(&v, j + 2, me) {
                Some(m) => m,
                None => {
                    return Err(Error::EraTextFormat);
                },
            };
            let day = match parse_digit_group(&v, me + 1, de) {
                Some(d) => d,
                None => {
                    return Err(Error::EraTextFormat);
                },
            };
            from_era_ymd(era, 1, month, day)
        } else {
            Err(Error::EraTextFormat)
        }
    }
}

} // verus!
