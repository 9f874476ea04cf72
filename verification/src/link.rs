//! Links: deriving the trial type from a detail-page link, extracting the
//! lawsuit id from its query, and building the date-filtered listing URL.

use vstd::prelude::*;

use crate::date::{era_uri_encode, spec_era_uri_encode, EraDate};
use crate::error::Error;
use crate::record::{
    spec_courts_domain, spec_new_draft, spec_trial_type_of_digit, trial_type_of_digit,
    RecordAssembler, TrialType,
};
use crate::text::{append_dec, chars_vec, dec_digit, dec_str, digit_val, is_dec_digit};

verus! {

/// The position of the first digit that has a non-digit just before it:
/// where the single-digit trial-type code of a detail link stands.
pub open spec fn find_type_digit(s: Seq<char>, i: int) -> int
    decreases s.len() - i when 0 <= i
{
    if i >= s.len() {
        -1
    } else if 1 <= i && is_dec_digit(s[i]) && !is_dec_digit(s[i - 1]) {
        i
    } else {
        find_type_digit(s, i + 1)
    }
}

proof fn lemma_find_type_digit_at(s: Seq<char>, j: int, i: int)
    requires
        0 <= j <= i <= s.len(),
        forall|k: int|
            j <= k < i ==> !(1 <= k && is_dec_digit(#[trigger] s[k]) && !is_dec_digit(s[k - 1])),
        i == s.len() || (1 <= i && is_dec_digit(s[i]) && !is_dec_digit(s[i - 1])),
    ensures
        find_type_digit(s, j) == if i == s.len() {
            -1
        } else {
            i
        },
    decreases i - j,
{
    if j < i {
        lemma_find_type_digit_at(s, j + 1, i);
    }
}

/// What the trial-type derivation owes: the first marked digit must exist
/// and lie in the closed code range 2–7; anything else is a link of an
/// unexpected shape.
pub open spec fn spec_trial_type_of_link(s: Seq<char>) -> Result<TrialType, Error> {
    let i = find_type_digit(s, 0);
    if i < 0 {
        Err(Error::UnexpectedLinkShape)
    } else {
        match spec_trial_type_of_digit(digit_val(s[i])) {
            Some(t) => Ok(t),
            None => Err(Error::UnexpectedLinkShape),
        }
    }
}

/// Derives the trial type from the single-digit code embedded in a
/// detail-page link path.
pub fn trial_type_of_link(link: &str) -> (r: Result<TrialType, Error>)
    ensures
        r == spec_trial_type_of_link(link@),
{
    let v = chars_vec(link);
    let n = v.len();
    let mut i: usize = 0;
    while i < n && !(i >= 1 && dec_digit(v[i]) && !dec_digit(v[i - 1]))
        invariant
            i <= n,
            n == v@.len(),
            v@ == link@,
            forall|k: int|
                0 <= k < i ==> !(1 <= k && is_dec_digit(#[trigger] v@[k]) && !is_dec_digit(
                    v@[k - 1],
                )),
        decreases n - i,
    {
        i = i + 1;
    }
    proof {
        lemma_find_type_digit_at(v@, 0, i as int);
    }
    if i >= n {
        return Err(Error::UnexpectedLinkShape);
    }
    let d = (v[i] as u32 - 0x30) as usize;
    match trial_type_of_digit(d) {
        Some(t) => Ok(t),
        None => Err(Error::UnexpectedLinkShape),
    }
}

/// The first query parameter's decoded value of a parseable URL, `None`
/// when the URL does not parse or carries no query pair: a function of
/// the link text alone.
pub uninterp spec fn spec_first_query_value(s: Seq<char>) -> Option<Seq<char>>;

/// Relies on the `url` crate: `Url::parse` reads the link and
/// `Url::query_pairs` yields its decoded query pairs in order; the first
/// pair's value is returned, and a parse failure or an empty query is
/// `None`.
#[verifier::external_body]
fn first_query_value(s: &str) -> (r: Option<String>)
    ensures
        r matches Some(v) ==> spec_first_query_value(s@) == Some(v@),
        r is None ==> spec_first_query_value(s@) is None,
{
    match url::Url::parse(s) {
        Ok(u) => u.query_pairs().next().map(|p| p.1.into_owned()),
        Err(_) => None,
    }
}

/// The id a detail-page link carries as its first query parameter.
/// `Error::UnexpectedLinkShape` exactly when the link yields none.
pub fn lawsuit_id_of_link(url_str: &str) -> (r: Result<String, Error>)
    ensures
        r matches Ok(v) ==> spec_first_query_value(url_str@) == Some(v@),
        r matches Err(e) ==> spec_first_query_value(url_str@) is None && e
            == Error::UnexpectedLinkShape,
{
    match first_query_value(url_str) {
        Some(v) => Ok(v),
        None => Err(Error::UnexpectedLinkShape),
    }
}

/// Opens a record for the detail page behind `link` (as found on a listing
/// page, relative to the site domain): derives the trial type and the
/// lawsuit id, which are fixed before any field is dispatched.
pub fn start_record(link: &str) -> (r: Result<RecordAssembler, Error>)
    ensures
        match r {
            Ok(a) => {
                &&& spec_trial_type_of_link(link@) matches Ok(tt) && a@ == spec_new_draft(
                    tt,
                    spec_first_query_value(spec_courts_domain() + link@)->Some_0,
                    spec_courts_domain() + link@,
                )
                &&& spec_first_query_value(spec_courts_domain() + link@) is Some
            },
            Err(e) => spec_trial_type_of_link(link@) == Err::<TrialType, Error>(e) || (
            spec_trial_type_of_link(link@) is Ok && spec_first_query_value(
                spec_courts_domain() + link@,
            ) is None && e == Error::UnexpectedLinkShape),
        },
{
    let trial_type = match trial_type_of_link(link) {
        Ok(t) => t,
        Err(e) => {
            return Err(e);
        },
    };
    let mut full = String::new();
    full.append("https://www.courts.go.jp");
    full.append(link);
    proof {
        assert(full@ =~= spec_courts_domain() + link@);
    }
    let lawsuit_id = match lawsuit_id_of_link(full.as_str()) {
        Ok(v) => v,
        Err(e) => {
            return Err(e);
        },
    };
    Ok(RecordAssembler::new(trial_type, lawsuit_id, full))
}

/// The listing-query URL for one result page of the date filter
/// `start ..= end`: the fixed layout the site expects, with the era names
/// percent-encoded and the era-year, month and day fields in decimal.
pub open spec fn spec_listing_url(start: EraDate, end: EraDate, page: int) -> Seq<char> {
    "https://www.courts.go.jp/app/hanrei_jp/list1?page="@ + dec_str(page)
        + "&sort=1&filter%5BjudgeDateMode%5D=2&filter%5BjudgeGengoFrom%5D="@
        + spec_era_uri_encode(start.era) + "&filter%5BjudgeYearFrom%5D="@ + dec_str(
        start.era_year as int,
    ) + "&filter%5BjudgeMonthFrom%5D="@ + dec_str(start.month as int)
        + "&filter%5BjudgeDayFrom%5D="@ + dec_str(start.day as int)
        + "&filter%5BjudgeGengoTo%5D="@ + spec_era_uri_encode(end.era)
        + "&filter%5BjudgeYearTo%5D="@ + dec_str(end.era_year as int)
        + "&filter%5BjudgeMonthTo%5D="@ + dec_str(end.month as int) + "&filter%5BjudgeDayTo%5D="@
        + dec_str(end.day as int)
}

/// Builds the listing-query URL for one result page.
pub fn listing_url(start: &EraDate, end: &EraDate, page: usize) -> (r: String)
    ensures
        r@ == spec_listing_url(*start, *end, page as int),
{
    let mut u = String::new();
    u.append("https://www.courts.go.jp/app/hanrei_jp/list1?page=");
    append_dec(&mut u, page);
    u.append("&sort=1&filter%5BjudgeDateMode%5D=2&filter%5BjudgeGengoFrom%5D=");
    u.append(era_uri_encode(start.era));
    u.append("&filter%5BjudgeYearFrom%5D=");
    append_dec(&mut u, start.era_year);
    u.append("&filter%5BjudgeMonthFrom%5D=");
    append_dec(&mut u, start.month);
    u.append("&filter%5BjudgeDayFrom%5D=");
    append_dec(&mut u, start.day);
    u.append("&filter%5BjudgeGengoTo%5D=");
    u.append(era_uri_encode(end.era));
    u.append("&filter%5BjudgeYearTo%5D=");
    append_dec(&mut u, end.era_year);
    u.append("&filter%5BjudgeMonthTo%5D=");
    append_dec(&mut u, end.month);
    u.append("&filter%5BjudgeDayTo%5D=");
    append_dec(&mut u, end.day);
    proof {
        assert(u@ =~= spec_listing_url(*start, *end, page as int));
    }
    u
}

} // verus!
