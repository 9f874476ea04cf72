use listup_precedent::date::{era_uri_encode, parse_era_text, parse_numeric, Era, EraDate};
use listup_precedent::error::Error;

fn date(era: Era, era_year: usize, year: usize, month: usize, day: usize) -> EraDate {
    EraDate { era, era_year, year, month, day }
}

#[test]
fn era_text_reiwa_gannen() {
    let d = parse_era_text("令和元年5月1日").unwrap();
    assert_eq!(d, date(Era::Reiwa, 1, 2019, 5, 1));
}

#[test]
fn era_text_heisei_last_day() {
    let d = parse_era_text("平成31年4月30日").unwrap();
    assert_eq!(d, date(Era::Heisei, 31, 2019, 4, 30));
}

#[test]
fn era_text_unknown_era() {
    assert_eq!(parse_era_text("大正5年1月1日"), Err(Error::UnknownEra));
}

#[test]
fn era_text_showa() {
    let d = parse_era_text("昭和64年1月7日").unwrap();
    assert_eq!(d, date(Era::Showa, 64, 1989, 1, 7));
}

#[test]
fn era_text_with_leading_prose() {
    let d = parse_era_text("判決日：平成30年6月15日判決").unwrap_err();
    // The era capture spans the whole non-digit run before the year digits,
    // so leading prose makes the era name unrecognizable.
    assert_eq!(d, Error::UnknownEra);
}

#[test]
fn era_text_no_match() {
    assert_eq!(parse_era_text("2019-05-01"), Err(Error::EraTextFormat));
    assert_eq!(parse_era_text(""), Err(Error::EraTextFormat));
    assert_eq!(parse_era_text("令和5年に判決"), Err(Error::EraTextFormat));
}

#[test]
fn era_text_out_of_era_range() {
    // Heisei year 99 composes to 2087, which lies in the Reiwa range.
    assert_eq!(parse_era_text("平成99年1月1日"), Err(Error::DateRange));
}

#[test]
fn era_text_month_out_of_bounds() {
    assert_eq!(parse_era_text("令和5年13月1日"), Err(Error::DateRange));
    assert_eq!(parse_era_text("令和5年0月1日"), Err(Error::DateRange));
}

#[test]
fn era_text_oversized_year_digits() {
    // An era-year run too large for usize fails as a format error before
    // the era name is even read.
    assert_eq!(
        parse_era_text("令和99999999999999999999999年1月1日"),
        Err(Error::EraTextFormat)
    );
}

#[test]
fn numeric_basic() {
    let d = parse_numeric("2022/01/12").unwrap();
    assert_eq!(d, date(Era::Reiwa, 4, 2022, 1, 12));
    // The two separator characters are not inspected.
    assert_eq!(parse_numeric("2022-01-12").unwrap(), d);
}

#[test]
fn numeric_month_13_fails() {
    assert_eq!(parse_numeric("2022/13/01"), Err(Error::DateRange));
}

#[test]
fn numeric_rejects_malformed() {
    assert_eq!(parse_numeric(""), Err(Error::DateRange));
    assert_eq!(parse_numeric("20x2/01/12"), Err(Error::DateRange));
    assert_eq!(parse_numeric("2022/01"), Err(Error::DateRange));
    assert_eq!(parse_numeric("2022/00/05"), Err(Error::DateRange));
    assert_eq!(parse_numeric("2022/05/00"), Err(Error::DateRange));
    assert_eq!(parse_numeric("2022/05/32"), Err(Error::DateRange));
}

#[test]
fn numeric_era_boundaries() {
    assert_eq!(parse_numeric("1926/12/25").unwrap(), date(Era::Showa, 1, 1926, 12, 25));
    assert_eq!(parse_numeric("1926/12/24"), Err(Error::DateRange));
    assert_eq!(parse_numeric("1989/01/07").unwrap(), date(Era::Showa, 64, 1989, 1, 7));
    assert_eq!(parse_numeric("1989/01/08").unwrap(), date(Era::Heisei, 1, 1989, 1, 8));
    assert_eq!(parse_numeric("2019/04/30").unwrap(), date(Era::Heisei, 31, 2019, 4, 30));
    assert_eq!(parse_numeric("2019/05/01").unwrap(), date(Era::Reiwa, 1, 2019, 5, 1));
}

#[test]
fn numeric_round_trip() {
    for s in ["1926/12/25", "1989/01/07", "1989/01/08", "2019/04/30", "2019/05/01", "2023/12/01"] {
        let d = parse_numeric(s).unwrap();
        // Re-encoding through the era base-year table reproduces the input.
        let base = match d.era {
            Era::Showa => 1925,
            Era::Heisei => 1988,
            Era::Reiwa => 2018,
        };
        assert_eq!(base + d.era_year, d.year);
        let back = format!("{:04}/{:02}/{:02}", d.year, d.month, d.day);
        assert_eq!(back, s.replace('-', "/"));
    }
}

#[test]
fn uri_encoding_of_eras() {
    assert_eq!(era_uri_encode(Era::Showa), "%E6%98%AD%E5%92%8C");
    assert_eq!(era_uri_encode(Era::Heisei), "%E5%B9%B3%E6%88%90");
    assert_eq!(era_uri_encode(Era::Reiwa), "%E4%BB%A4%E5%92%8C");
}
