use listup_precedent::error::Error;
use listup_precedent::paging::{
    assemble_record, collect_records, page_count, pages_of_summary, total_count, DetailSource,
    FieldSource, PageSource,
};
use listup_precedent::record::TrialType;

fn field(label: &str, text: &str) -> FieldSource {
    FieldSource { label: String::from(label), text: String::from(text), href: None }
}

fn link_field(label: &str, href: &str) -> FieldSource {
    FieldSource {
        label: String::from(label),
        text: String::new(),
        href: Some(String::from(href)),
    }
}

fn detail(id: &str, case_number: &str) -> DetailSource {
    DetailSource {
        link: format!("/app/hanrei_jp/detail2?id={id}"),
        fields: vec![
            field("事件番号", case_number),
            field("事件名", "損害賠償請求事件"),
            field("裁判年月日", "令和元年5月1日"),
            field("裁判所名", "最高裁判所第二小法廷"),
            link_field("全文", "/content/pdf/doc.pdf"),
        ],
        contents: None,
    }
}

#[test]
fn summary_count_and_page_count() {
    assert_eq!(total_count("64297件中1～10件を表示"), Some(64297));
    assert_eq!(page_count(64297), 6430);
    assert_eq!(pages_of_summary("64297件中1～10件を表示"), Ok(6430));
}

#[test]
fn page_count_rounds_up_only_on_remainder() {
    assert_eq!(page_count(0), 0);
    assert_eq!(page_count(1), 1);
    assert_eq!(page_count(10), 1);
    assert_eq!(page_count(11), 2);
    assert_eq!(page_count(100), 10);
    assert_eq!(page_count(101), 11);
}

#[test]
fn summary_without_count_is_fatal() {
    assert_eq!(total_count("件数を表示できません"), None);
    assert_eq!(pages_of_summary("件数を表示できません"), Err(Error::MissingResultCount));
    // A count too large for usize reads as no count at all.
    assert_eq!(total_count("99999999999999999999999件中"), None);
}

#[test]
fn assemble_one_detail_page() {
    let rec = assemble_record(&detail("41", "平成31(受)1")).unwrap();
    assert_eq!(rec.lawsuit_id, "41");
    assert_eq!(rec.trial_type, TrialType::SupremeCourt);
    assert_eq!(rec.case_number, "平成31(受)1");
    assert_eq!(rec.date.year, 2019);
    assert_eq!(rec.date.month, 5);
    assert_eq!(rec.date.day, 1);
    assert_eq!(rec.full_pdf_link, "https://www.courts.go.jp/content/pdf/doc.pdf");
}

#[test]
fn two_page_three_record_run_emits_in_order() {
    let pages = vec![
        PageSource { details: vec![detail("11", "平成31(受)1"), detail("22", "平成31(受)2")] },
        PageSource { details: vec![detail("33", "平成31(受)3")] },
    ];
    let (recs, infos) = collect_records(&pages).unwrap();
    assert_eq!(recs.len(), 3);
    assert_eq!(infos.len(), 3);
    let rec_ids: Vec<&str> = recs.iter().map(|r| r.lawsuit_id.as_str()).collect();
    assert_eq!(rec_ids, vec!["11", "22", "33"]);
    let info_ids: Vec<&str> = infos.iter().map(|i| i.lawsuit_id.as_str()).collect();
    assert_eq!(info_ids, vec!["11", "22", "33"]);
    for (r, i) in recs.iter().zip(infos.iter()) {
        assert_eq!(r.case_number, i.case_number);
        assert_eq!(r.court_name, i.court_name);
        assert_eq!(r.date, i.date);
    }
}

#[test]
fn a_fatal_record_halts_the_whole_run() {
    let mut bad = detail("22", "平成31(受)2");
    bad.fields[2] = field("裁判年月日", "大正8年1月1日");
    let pages = vec![
        PageSource { details: vec![detail("11", "平成31(受)1"), bad] },
        PageSource { details: vec![detail("33", "平成31(受)3")] },
    ];
    assert_eq!(collect_records(&pages), Err(Error::UnknownEra));
}
