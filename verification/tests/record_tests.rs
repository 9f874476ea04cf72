use listup_precedent::date::Era;
use listup_precedent::error::{Error, Slot};
use listup_precedent::link::{lawsuit_id_of_link, listing_url, start_record, trial_type_of_link};
use listup_precedent::record::{
    file_name, summary_of, DispatchOutcome, RecordAssembler, TrialType,
};

fn assembler() -> RecordAssembler {
    RecordAssembler::new(
        TrialType::SupremeCourt,
        String::from("90000"),
        String::from("https://www.courts.go.jp/app/hanrei_jp/detail2?id=90000"),
    )
}

fn fill_required(a: &mut RecordAssembler) {
    a.dispatch("事件番号", "平成30(あ)100", None).unwrap();
    a.dispatch("事件名", "詐欺被告事件", None).unwrap();
    a.dispatch("裁判年月日", "平成31年4月30日", None).unwrap();
    a.dispatch("裁判所名", "最高裁判所第一小法廷", None).unwrap();
    a.dispatch("全文", "", Some("/content/pdf/90000.pdf")).unwrap();
}

#[test]
fn empty_after_trim_leaves_optional_slot_unset() {
    let mut a = assembler();
    let outcome = a.dispatch("権利種別", "   \u{3000} ", None).unwrap();
    assert_eq!(outcome, DispatchOutcome::Updated(Slot::RightType));
    fill_required(&mut a);
    let rec = a.finish(None).unwrap();
    assert_eq!(rec.right_type, None);
}

fn fill_required_but_court(a: &mut RecordAssembler) {
    a.dispatch("事件番号", "平成30(あ)100", None).unwrap();
    a.dispatch("事件名", "詐欺被告事件", None).unwrap();
    a.dispatch("裁判年月日", "平成31年4月30日", None).unwrap();
    a.dispatch("全文", "", Some("/content/pdf/90000.pdf")).unwrap();
}

#[test]
fn synonym_labels_yield_identical_slot_contents() {
    let court = " 東京地方裁判所\n 民事第1部 ";
    let mut a1 = assembler();
    let mut a2 = assembler();
    let mut a3 = assembler();
    fill_required_but_court(&mut a1);
    fill_required_but_court(&mut a2);
    fill_required_but_court(&mut a3);
    a1.dispatch("裁判所名", court, None).unwrap();
    a2.dispatch("法廷名", court, None).unwrap();
    a3.dispatch("裁判所名・部", court, None).unwrap();
    let r1 = a1.finish(None).unwrap();
    let r2 = a2.finish(None).unwrap();
    let r3 = a3.finish(None).unwrap();
    assert_eq!(r1.court_name, "東京地方裁判所民事第1部");
    assert_eq!(r1.court_name, r2.court_name);
    assert_eq!(r1.court_name, r3.court_name);
}

#[test]
fn unknown_label_is_skipped() {
    let mut a = assembler();
    let before = format!("{:?}", a.case_number);
    let outcome = a.dispatch("注記", "何か", None).unwrap();
    assert_eq!(outcome, DispatchOutcome::Skipped);
    assert_eq!(format!("{:?}", a.case_number), before);
}

#[test]
fn full_text_without_target_is_fatal() {
    let mut a = assembler();
    assert_eq!(a.dispatch("全文", "", None), Err(Error::MissingRequiredLink));
}

#[test]
fn full_text_link_is_prefixed_with_domain() {
    let mut a = assembler();
    fill_required(&mut a);
    let rec = a.finish(None).unwrap();
    assert_eq!(rec.full_pdf_link, "https://www.courts.go.jp/content/pdf/90000.pdf");
}

#[test]
fn missing_required_field_names_it() {
    let mut a = assembler();
    a.dispatch("事件名", "詐欺被告事件", None).unwrap();
    assert_eq!(a.finish(None), Err(Error::IncompleteRecord(Slot::CaseNumber)));
}

#[test]
fn empty_required_field_counts_as_missing() {
    let mut a = assembler();
    fill_required(&mut a);
    a.dispatch("事件番号", "  \n ", None).unwrap();
    // The earlier non-empty dispatch already set the slot; the empty one
    // must not clear it.
    assert!(a.finish(None).is_ok());

    let mut b = assembler();
    fill_required_but_court(&mut b);
    b.dispatch("裁判所名", " \u{3000} ", None).unwrap();
    assert_eq!(b.finish(None), Err(Error::IncompleteRecord(Slot::CourtName)));
}

#[test]
fn judgment_date_parse_failure_aborts() {
    let mut a = assembler();
    fill_required(&mut a);
    let mut b = assembler();
    b.dispatch("事件番号", "平成30(あ)100", None).unwrap();
    b.dispatch("事件名", "詐欺被告事件", None).unwrap();
    b.dispatch("裁判年月日", "大正5年1月1日", None).unwrap();
    b.dispatch("裁判所名", "最高裁判所第一小法廷", None).unwrap();
    b.dispatch("全文", "", Some("/content/pdf/90000.pdf")).unwrap();
    assert!(a.finish(None).is_ok());
    assert_eq!(b.finish(None), Err(Error::UnknownEra));
}

#[test]
fn original_date_parse_failure_degrades_to_absent() {
    let mut a = assembler();
    fill_required(&mut a);
    a.dispatch("原審裁判年月日", "大正5年1月1日", None).unwrap();
    let rec = a.finish(None).unwrap();
    assert_eq!(rec.original_date, None);

    let mut b = assembler();
    fill_required(&mut b);
    b.dispatch("原審裁判年月日", "平成30年6月15日", None).unwrap();
    let rec = b.finish(None).unwrap();
    let od = rec.original_date.unwrap();
    assert_eq!((od.era, od.era_year, od.year, od.month, od.day), (Era::Heisei, 30, 2018, 6, 15));
}

#[test]
fn record_carries_contents_and_ids() {
    let mut a = assembler();
    fill_required(&mut a);
    let rec = a.finish(Some(String::from("本文"))).unwrap();
    assert_eq!(rec.contents.as_deref(), Some("本文"));
    assert_eq!(rec.lawsuit_id, "90000");
    assert_eq!(rec.trial_type, TrialType::SupremeCourt);
    assert_eq!(rec.date.year, 2019);
    let info = summary_of(&rec);
    assert_eq!(info.case_number, rec.case_number);
    assert_eq!(info.court_name, rec.court_name);
    assert_eq!(info.lawsuit_id, rec.lawsuit_id);
    assert_eq!(
        file_name(&info),
        "平成30(あ)100_最高裁判所第一小法廷_SupremeCourt_2019_4_30_90000"
    );
}

#[test]
fn every_label_routes_to_its_slot() {
    let mut a = assembler();
    a.dispatch("事件番号", "番号A", None).unwrap();
    a.dispatch("事件名", "名A", None).unwrap();
    a.dispatch("裁判年月日", "令和2年3月4日", None).unwrap();
    a.dispatch("裁判所名", "裁A", None).unwrap();
    a.dispatch("権利種別", "権A", None).unwrap();
    a.dispatch("訴訟類型", "訴A", None).unwrap();
    a.dispatch("裁判種別", "種A", None).unwrap();
    a.dispatch("結果", "結A", None).unwrap();
    a.dispatch("判例集等巻・号・頁", "巻A", None).unwrap();
    a.dispatch("原審裁判所名", "原裁A", None).unwrap();
    a.dispatch("原審事件番号", "原番A", None).unwrap();
    a.dispatch("原審結果", "原結A", None).unwrap();
    a.dispatch("原審裁判年月日", "平成30年1月2日", None).unwrap();
    a.dispatch("分野", "分A", None).unwrap();
    a.dispatch("判示事項の要旨", "要A", None).unwrap();
    a.dispatch("裁判要旨", "裁要A", None).unwrap();
    a.dispatch("参照法条", "法A", None).unwrap();
    a.dispatch("全文", "", Some("/p.pdf")).unwrap();
    let rec = a.finish(None).unwrap();
    assert_eq!(rec.case_number, "番号A");
    assert_eq!(rec.case_name, "名A");
    assert_eq!((rec.date.year, rec.date.month, rec.date.day), (2020, 3, 4));
    assert_eq!(rec.court_name, "裁A");
    assert_eq!(rec.right_type.as_deref(), Some("権A"));
    assert_eq!(rec.lawsuit_type.as_deref(), Some("訴A"));
    assert_eq!(rec.result_type.as_deref(), Some("種A"));
    assert_eq!(rec.result.as_deref(), Some("結A"));
    assert_eq!(rec.article_info.as_deref(), Some("巻A"));
    assert_eq!(rec.original_court_name.as_deref(), Some("原裁A"));
    assert_eq!(rec.original_case_number.as_deref(), Some("原番A"));
    assert_eq!(rec.original_result.as_deref(), Some("原結A"));
    let od = rec.original_date.unwrap();
    assert_eq!((od.year, od.month, od.day), (2018, 1, 2));
    assert_eq!(rec.field.as_deref(), Some("分A"));
    assert_eq!(rec.gist.as_deref(), Some("要A"));
    assert_eq!(rec.case_gist.as_deref(), Some("裁要A"));
    assert_eq!(rec.ref_law.as_deref(), Some("法A"));
    assert_eq!(rec.full_pdf_link, "https://www.courts.go.jp/p.pdf");
}

#[test]
fn second_spellings_route_to_the_same_slots() {
    let mut a = assembler();
    fill_required(&mut a);
    a.dispatch("高裁判例集登載巻・号・頁", "巻B", None).unwrap();
    a.dispatch("判示事項", "要B", None).unwrap();
    let rec = a.finish(None).unwrap();
    assert_eq!(rec.article_info.as_deref(), Some("巻B"));
    assert_eq!(rec.gist.as_deref(), Some("要B"));
}

#[test]
fn trial_type_digits() {
    assert_eq!(trial_type_of_link("/app/hanrei_jp/detail2?id=1"), Ok(TrialType::SupremeCourt));
    assert_eq!(trial_type_of_link("/app/hanrei_jp/detail3?id=1"), Ok(TrialType::HighCourt));
    assert_eq!(trial_type_of_link("/app/hanrei_jp/detail4?id=1"), Ok(TrialType::LowerCourt));
    assert_eq!(
        trial_type_of_link("/app/hanrei_jp/detail5?id=1"),
        Ok(TrialType::AdministrativeCase)
    );
    assert_eq!(trial_type_of_link("/app/hanrei_jp/detail6?id=1"), Ok(TrialType::LaborCase));
    assert_eq!(trial_type_of_link("/app/hanrei_jp/detail7?id=1"), Ok(TrialType::IPCase));
    assert_eq!(trial_type_of_link("/app/hanrei_jp/detail8?id=1"), Err(Error::UnexpectedLinkShape));
    assert_eq!(trial_type_of_link("/app/hanrei_jp/detail"), Err(Error::UnexpectedLinkShape));
}

#[test]
fn lawsuit_id_is_first_query_value() {
    // Runs the real URL parser: a link whose first query pair is the id.
    assert_eq!(
        lawsuit_id_of_link("https://www.courts.go.jp/app/hanrei_jp/detail2?id=12345"),
        Ok(String::from("12345"))
    );
    assert_eq!(
        lawsuit_id_of_link("https://www.courts.go.jp/app/hanrei_jp/detail2?id=12%2045&x=1"),
        Ok(String::from("12 45"))
    );
    assert_eq!(
        lawsuit_id_of_link("https://www.courts.go.jp/app/hanrei_jp/detail2"),
        Err(Error::UnexpectedLinkShape)
    );
}

#[test]
fn start_record_derives_identifiers() {
    let a = start_record("/app/hanrei_jp/detail3?id=777").unwrap();
    assert_eq!(a.trial_type, TrialType::HighCourt);
    assert_eq!(a.lawsuit_id, "777");
    assert_eq!(a.detail_page_link, "https://www.courts.go.jp/app/hanrei_jp/detail3?id=777");
}

#[test]
fn listing_url_layout() {
    let start = listup_precedent::date::parse_numeric("2022/01/12").unwrap();
    let end = listup_precedent::date::parse_numeric("2023/12/01").unwrap();
    let url = listing_url(&start, &end, 1);
    assert_eq!(
        url,
        "https://www.courts.go.jp/app/hanrei_jp/list1?page=1&sort=1\
         &filter%5BjudgeDateMode%5D=2\
         &filter%5BjudgeGengoFrom%5D=%E4%BB%A4%E5%92%8C\
         &filter%5BjudgeYearFrom%5D=4&filter%5BjudgeMonthFrom%5D=1&filter%5BjudgeDayFrom%5D=12\
         &filter%5BjudgeGengoTo%5D=%E4%BB%A4%E5%92%8C\
         &filter%5BjudgeYearTo%5D=5&filter%5BjudgeMonthTo%5D=12&filter%5BjudgeDayTo%5D=1"
    );
}
