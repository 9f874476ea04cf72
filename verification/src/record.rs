//! The field-extraction dispatcher and record assembler: a static table
//! routes each labeled value of a detail page into one slot of an
//! in-progress record; a final validation pass turns the accumulated slots
//! into one immutable case record.

use vstd::prelude::*;

use crate::date::{parse_era_text, spec_parse_era_text, EraDate};
use crate::error::{Error, Slot};
use crate::text::{
    append_dec, chars_string, chars_vec, collapse_line_breaks, collapse_lines, dec_str, str_eq,
    trim_chars, trim_spec,
};

verus! {

/// The trial types a detail-page link can encode, by its single-digit code.
#[derive(Clone, Copy, Debug, PartialEq, Eq, Structural)]
pub enum TrialType {
    SupremeCourt,
    HighCourt,
    LowerCourt,
    AdministrativeCase,
    LaborCase,
    IPCase,
}

/// The trial type the closed digit range 2–7 encodes; any other digit is
/// an input-format violation.
pub open spec fn spec_trial_type_of_digit(d: int) -> Option<TrialType> {
    if d == 2 {
        Some(TrialType::SupremeCourt)
    } else if d == 3 {
        Some(TrialType::HighCourt)
    } else if d == 4 {
        Some(TrialType::LowerCourt)
    } else if d == 5 {
        Some(TrialType::AdministrativeCase)
    } else if d == 6 {
        Some(TrialType::LaborCase)
    } else if d == 7 {
        Some(TrialType::IPCase)
    } else {
        None
    }
}

/// Executable digit-to-trial-type lookup.
pub fn trial_type_of_digit(d: usize) -> (r: Option<TrialType>)
    ensures
        r == spec_trial_type_of_digit(d as int),
{
    if d == 2 {
        Some(TrialType::SupremeCourt)
    } else if d == 3 {
        Some(TrialType::HighCourt)
    } else if d == 4 {
        Some(TrialType::LowerCourt)
    } else if d == 5 {
        Some(TrialType::AdministrativeCase)
    } else if d == 6 {
        Some(TrialType::LaborCase)
    } else if d == 7 {
        Some(TrialType::IPCase)
    } else {
        None
    }
}

/// The label table: which record slot a detail-page label routes to.
/// Synonymous spellings share a slot; a label outside the table routes
/// nowhere and is skipped.
pub open spec fn slot_of_label(l: Seq<char>) -> Option<Slot> {
    if l == "事件番号"@ {
        Some(Slot::CaseNumber)
    } else if l == "事件名"@ {
        Some(Slot::CaseName)
    } else if l == "裁判年月日"@ {
        Some(Slot::JudgmentDate)
    } else if l == "裁判所名"@ || l == "裁判所名・部"@ || l == "法廷名"@ {
        Some(Slot::CourtName)
    } else if l == "権利種別"@ {
        Some(Slot::RightType)
    } else if l == "訴訟類型"@ {
        Some(Slot::LawsuitType)
    } else if l == "裁判種別"@ {
        Some(Slot::ResultType)
    } else if l == "結果"@ {
        Some(Slot::ResultText)
    } else if l == "判例集等巻・号・頁"@ || l == "高裁判例集登載巻・号・頁"@ {
        Some(Slot::ArticleInfo)
    } else if l == "原審裁判所名"@ {
        Some(Slot::OriginalCourtName)
    } else if l == "原審事件番号"@ {
        Some(Slot::OriginalCaseNumber)
    } else if l == "原審結果"@ {
        Some(Slot::OriginalResult)
    } else if l == "原審裁判年月日"@ {
        Some(Slot::OriginalDate)
    } else if l == "分野"@ {
        Some(Slot::CaseField)
    } else if l == "判示事項の要旨"@ || l == "判示事項"@ {
        Some(Slot::Gist)
    } else if l == "裁判要旨"@ {
        Some(Slot::CaseGist)
    } else if l == "参照法条"@ {
        Some(Slot::RefLaw)
    } else if l == "全文"@ {
        Some(Slot::FullTextLink)
    } else {
        None
    }
}

/// Executable label lookup.
pub fn label_slot(label: &str) -> (r: Option<Slot>)
    ensures
        r == slot_of_label(label@),
{
    if str_eq(label, "事件番号") {
        Some(Slot::CaseNumber)
    } else if str_eq(label, "事件名") {
        Some(Slot::CaseName)
    } else if str_eq(label, "裁判年月日") {
        Some(Slot::JudgmentDate)
    } else if str_eq(label, "裁判所名") || str_eq(label, "裁判所名・部") || str_eq(label, "法廷名") {
        Some(Slot::CourtName)
    } else if str_eq(label, "権利種別") {
        Some(Slot::RightType)
    } else if str_eq(label, "訴訟類型") {
        Some(Slot::LawsuitType)
    } else if str_eq(label, "裁判種別") {
        Some(Slot::ResultType)
    } else if str_eq(label, "結果") {
        Some(Slot::ResultText)
    } else if str_eq(label, "判例集等巻・号・頁") || str_eq(label, "高裁判例集登載巻・号・頁") {
        Some(Slot::ArticleInfo)
    } else if str_eq(label, "原審裁判所名") {
        Some(Slot::OriginalCourtName)
    } else if str_eq(label, "原審事件番号") {
        Some(Slot::OriginalCaseNumber)
    } else if str_eq(label, "原審結果") {
        Some(Slot::OriginalResult)
    } else if str_eq(label, "原審裁判年月日") {
        Some(Slot::OriginalDate)
    } else if str_eq(label, "分野") {
        Some(Slot::CaseField)
    } else if str_eq(label, "判示事項の要旨") || str_eq(label, "判示事項") {
        Some(Slot::Gist)
    } else if str_eq(label, "裁判要旨") {
        Some(Slot::CaseGist)
    } else if str_eq(label, "参照法条") {
        Some(Slot::RefLaw)
    } else if str_eq(label, "全文") {
        Some(Slot::FullTextLink)
    } else {
        None
    }
}

/// The site's domain, prefixed to the relative links found on its pages.
pub open spec fn spec_courts_domain() -> Seq<char> {
    "https://www.courts.go.jp"@
}

/// What a dispatch did: routed the value into a slot, or skipped an
/// unknown label.
#[derive(Clone, Copy, Debug, PartialEq, Eq, Structural)]
pub enum DispatchOutcome {
    Updated(Slot),
    Skipped,
}

/// The mathematical state of an in-progress record: every slot as the
/// character sequence it holds, absent slots as `None`.
#[verifier::ext_equal]
pub struct RecordDraft {
    pub trial_type: TrialType,
    pub lawsuit_id: Seq<char>,
    pub detail_page_link: Seq<char>,
    pub case_number: Option<Seq<char>>,
    pub case_name: Option<Seq<char>>,
    pub date_text: Option<Seq<char>>,
    pub court_name: Option<Seq<char>>,
    pub right_type: Option<Seq<char>>,
    pub lawsuit_type: Option<Seq<char>>,
    pub result_type: Option<Seq<char>>,
    pub result: Option<Seq<char>>,
    pub article_info: Option<Seq<char>>,
    pub original_court_name: Option<Seq<char>>,
    pub original_case_number: Option<Seq<char>>,
    pub original_result: Option<Seq<char>>,
    pub original_date_text: Option<Seq<char>>,
    pub field: Option<Seq<char>>,
    pub gist: Option<Seq<char>>,
    pub case_gist: Option<Seq<char>>,
    pub ref_law: Option<Seq<char>>,
    pub full_pdf_link: Option<Seq<char>>,
}

/// Accumulator for one detail-page traversal: the derived identifiers are
/// fixed at record start, the slots fill as labels are dispatched.
pub struct RecordAssembler {
    pub trial_type: TrialType,
    pub lawsuit_id: String,
    pub detail_page_link: String,
    pub case_number: Option<String>,
    pub case_name: Option<String>,
    pub date_text: Option<String>,
    pub court_name: Option<String>,
    pub right_type: Option<String>,
    pub lawsuit_type: Option<String>,
    pub result_type: Option<String>,
    pub result: Option<String>,
    pub article_info: Option<String>,
    pub original_court_name: Option<String>,
    pub original_case_number: Option<String>,
    pub original_result: Option<String>,
    pub original_date_text: Option<String>,
    pub field: Option<String>,
    pub gist: Option<String>,
    pub case_gist: Option<String>,
    pub ref_law: Option<String>,
    pub full_pdf_link: Option<String>,
}

impl View for RecordAssembler {
    type V = RecordDraft;

    open spec fn view(&self) -> RecordDraft {
        RecordDraft {
            trial_type: self.trial_type,
            lawsuit_id: self.lawsuit_id@,
            detail_page_link: self.detail_page_link@,
            case_number: self.case_number.deep_view(),
            case_name: self.case_name.deep_view(),
            date_text: self.date_text.deep_view(),
            court_name: self.court_name.deep_view(),
            right_type: self.right_type.deep_view(),
            lawsuit_type: self.lawsuit_type.deep_view(),
            result_type: self.result_type.deep_view(),
            result: self.result.deep_view(),
            article_info: self.article_info.deep_view(),
            original_court_name: self.original_court_name.deep_view(),
            original_case_number: self.original_case_number.deep_view(),
            original_result: self.original_result.deep_view(),
            original_date_text: self.original_date_text.deep_view(),
            field: self.field.deep_view(),
            gist: self.gist.deep_view(),
            case_gist: self.case_gist.deep_view(),
            ref_law: self.ref_law.deep_view(),
            full_pdf_link: self.full_pdf_link.deep_view(),
        }
    }
}

/// The draft a record starts from: identifiers set, every slot empty.
pub open spec fn spec_new_draft(
    trial_type: TrialType,
    lawsuit_id: Seq<char>,
    detail_page_link: Seq<char>,
) -> RecordDraft {
    RecordDraft {
        trial_type,
        lawsuit_id,
        detail_page_link,
        case_number: None,
        case_name: None,
        date_text: None,
        court_name: None,
        right_type: None,
        lawsuit_type: None,
        result_type: None,
        result: None,
        article_info: None,
        original_court_name: None,
        original_case_number: None,
        original_result: None,
        original_date_text: None,
        field: None,
        gist: None,
        case_gist: None,
        ref_law: None,
        full_pdf_link: None,
    }
}

/// The cleanup a text slot applies: every slot trims its value; the court
/// name additionally collapses internal line breaks.
pub open spec fn spec_cleaned(slot: Slot, text: Seq<char>) -> Seq<char> {
    if slot == Slot::CourtName {
        collapse_lines(trim_spec(text))
    } else {
        trim_spec(text)
    }
}

/// The draft with one text slot set to `t`.
pub open spec fn spec_set_slot(d: RecordDraft, slot: Slot, t: Seq<char>) -> RecordDraft {
    match slot {
        Slot::CaseNumber => RecordDraft { case_number: Some(t), ..d },
        Slot::CaseName => RecordDraft { case_name: Some(t), ..d },
        Slot::JudgmentDate => RecordDraft { date_text: Some(t), ..d },
        Slot::CourtName => RecordDraft { court_name: Some(t), ..d },
        Slot::RightType => RecordDraft { right_type: Some(t), ..d },
        Slot::LawsuitType => RecordDraft { lawsuit_type: Some(t), ..d },
        Slot::ResultType => RecordDraft { result_type: Some(t), ..d },
        Slot::ResultText => RecordDraft { result: Some(t), ..d },
        Slot::ArticleInfo => RecordDraft { article_info: Some(t), ..d },
        Slot::OriginalCourtName => RecordDraft { original_court_name: Some(t), ..d },
        Slot::OriginalCaseNumber => RecordDraft { original_case_number: Some(t), ..d },
        Slot::OriginalResult => RecordDraft { original_result: Some(t), ..d },
        Slot::OriginalDate => RecordDraft { original_date_text: Some(t), ..d },
        Slot::CaseField => RecordDraft { field: Some(t), ..d },
        Slot::Gist => RecordDraft { gist: Some(t), ..d },
        Slot::CaseGist => RecordDraft { case_gist: Some(t), ..d },
        Slot::RefLaw => RecordDraft { ref_law: Some(t), ..d },
        Slot::FullTextLink => RecordDraft { full_pdf_link: Some(t), ..d },
    }
}

/// The view of an optional borrowed string.
pub open spec fn opt_str_view(h: Option<&str>) -> Option<Seq<char>> {
    match h {
        Some(s) => Some(s@),
        None => None,
    }
}

/// What one dispatch does to a draft. An unknown label changes nothing.
/// A known text label routes the trimmed value into its slot, except that
/// a value empty after trimming leaves the slot as it was — absence is a
/// first-class state, never an empty string. The full-text label instead
/// requires a link target and stores it behind the site domain; a missing
/// target there is a fatal error.
pub open spec fn spec_dispatch(
    d: RecordDraft,
    label: Seq<char>,
    text: Seq<char>,
    href: Option<Seq<char>>,
) -> Result<(RecordDraft, DispatchOutcome), Error> {
    match slot_of_label(label) {
        None => Ok((d, DispatchOutcome::Skipped)),
        Some(Slot::FullTextLink) => match href {
            None => Err(Error::MissingRequiredLink),
            Some(h) => Ok(
                (
                    spec_set_slot(d, Slot::FullTextLink, spec_courts_domain() + h),
                    DispatchOutcome::Updated(Slot::FullTextLink),
                ),
            ),
        },
        Some(slot) => if trim_spec(text).len() == 0 {
            Ok((d, DispatchOutcome::Updated(slot)))
        } else {
            Ok((spec_set_slot(d, slot, spec_cleaned(slot, text)), DispatchOutcome::Updated(slot)))
        },
    }
}

impl RecordAssembler {
    /// Opens the record for one detail page, with the identifiers that are
    /// derived before field traversal.
    pub fn new(trial_type: TrialType, lawsuit_id: String, detail_page_link: String) -> (r: Self)
        ensures
            r@ == spec_new_draft(trial_type, lawsuit_id@, detail_page_link@),
    {
        RecordAssembler {
            trial_type,
            lawsuit_id,
            detail_page_link,
            case_number: None,
            case_name: None,
            date_text: None,
            court_name: None,
            right_type: None,
            lawsuit_type: None,
            result_type: None,
            result: None,
            article_info: None,
            original_court_name: None,
            original_case_number: None,
            original_result: None,
            original_date_text: None,
            field: None,
            gist: None,
            case_gist: None,
            ref_law: None,
            full_pdf_link: None,
        }
    }

    /// Stores the cleaned text value into one slot, leaving the draft as it
    /// was when the value is empty after trimming.
    fn set_text_slot(&mut self, slot: Slot, text: &str)
        requires
            slot != Slot::FullTextLink,
        ensures
            final(self)@ == if trim_spec(text@).len() == 0 {
                old(self)@
            } else {
                spec_set_slot(old(self)@, slot, spec_cleaned(slot, text@))
            },
    {
        let tv = chars_vec(text);
        let trimmed = trim_chars(&tv);
        if trimmed.len() == 0 {
            return ;
        }
        let value = if matches!(slot, Slot::CourtName) {
            let collapsed = collapse_line_breaks(&trimmed);
            chars_string(&collapsed)
        } else {
            chars_string(&trimmed)
        };
        match slot {
            Slot::CaseNumber => {
                self.case_number = Some(value);
            },
            Slot::CaseName => {
                self.case_name = Some(value);
            },
            Slot::JudgmentDate => {
                self.date_text = Some(value);
            },
            Slot::CourtName => {
                self.court_name = Some(value);
            },
            Slot::RightType => {
                self.right_type = Some(value);
            },
            Slot::LawsuitType => {
                self.lawsuit_type = Some(value);
            },
            Slot::ResultType => {
                self.result_type = Some(value);
            },
            Slot::ResultText => {
                self.result = Some(value);
            },
            Slot::ArticleInfo => {
                self.article_info = Some(value);
            },
            Slot::OriginalCourtName => {
                self.original_court_name = Some(value);
            },
            Slot::OriginalCaseNumber => {
                self.original_case_number = Some(value);
            },
            Slot::OriginalResult => {
                self.original_result = Some(value);
            },
            Slot::OriginalDate => {
                self.original_date_text = Some(value);
            },
            Slot::CaseField => {
                self.field = Some(value);
            },
            Slot::Gist => {
                self.gist = Some(value);
            },
            Slot::CaseGist => {
                self.case_gist = Some(value);
            },
            Slot::RefLaw => {
                self.ref_law = Some(value);
            },
            Slot::FullTextLink => {
            },
        }
    }

    /// Routes one labeled value into the draft, per the label table.
    pub fn dispatch(&mut self, label: &str, text: &str, href: Option<&str>) -> (r: Result<
        DispatchOutcome,
        Error,
    >)
        ensures
            match r {
                Ok(o) => spec_dispatch(old(self)@, label@, text@, opt_str_view(href)) == Ok::<
                    _,
                    Error,
                >((final(self)@, o)),
                Err(e) => spec_dispatch(old(self)@, label@, text@, opt_str_view(href)) == Err::<
                    (RecordDraft, DispatchOutcome),
                    _,
                >(e) && final(self)@ == old(self)@,
            },
    {
        match label_slot(label) {
            None => Ok(DispatchOutcome::Skipped),
            Some(Slot::FullTextLink) => {
                match href {
                    None => Err(Error::MissingRequiredLink),
                    Some(h) => {
                        let mut link = String::new();
                        link.append("https://www.courts.go.jp");
                        link.append(h);
                        proof {
                            assert(link@ =~= spec_courts_domain() + h@);
                        }
                        self.full_pdf_link = Some(link);
                        Ok(DispatchOutcome::Updated(Slot::FullTextLink))
                    },
                }
            },
            Some(slot) => {
                self.set_text_slot(slot, text);
                Ok(DispatchOutcome::Updated(slot))
            },
        }
    }
}

/// One assembled case, immutable once produced.
#[derive(Clone, Debug, PartialEq, Eq)]
pub struct PrecedentRecord {
    pub trial_type: TrialType,
    pub date: EraDate,
    pub case_number: String,
    pub case_name: String,
    pub court_name: String,
    pub right_type: Option<String>,
    pub lawsuit_type: Option<String>,
    pub result_type: Option<String>,
    pub result: Option<String>,
    pub article_info: Option<String>,
    pub original_court_name: Option<String>,
    pub original_case_number: Option<String>,
    pub original_result: Option<String>,
    pub original_date: Option<EraDate>,
    pub field: Option<String>,
    pub gist: Option<String>,
    pub case_gist: Option<String>,
    pub ref_law: Option<String>,
    pub lawsuit_id: String,
    pub detail_page_link: String,
    pub contents: Option<String>,
    pub full_pdf_link: String,
}

/// The mathematical value of an assembled case.
#[verifier::ext_equal]
pub struct PrecedentRecordView {
    pub trial_type: TrialType,
    pub date: EraDate,
    pub case_number: Seq<char>,
    pub case_name: Seq<char>,
    pub court_name: Seq<char>,
    pub right_type: Option<Seq<char>>,
    pub lawsuit_type: Option<Seq<char>>,
    pub result_type: Option<Seq<char>>,
    pub result: Option<Seq<char>>,
    pub article_info: Option<Seq<char>>,
    pub original_court_name: Option<Seq<char>>,
    pub original_case_number: Option<Seq<char>>,
    pub original_result: Option<Seq<char>>,
    pub original_date: Option<EraDate>,
    pub field: Option<Seq<char>>,
    pub gist: Option<Seq<char>>,
    pub case_gist: Option<Seq<char>>,
    pub ref_law: Option<Seq<char>>,
    pub lawsuit_id: Seq<char>,
    pub detail_page_link: Seq<char>,
    pub contents: Option<Seq<char>>,
    pub full_pdf_link: Seq<char>,
}

impl View for PrecedentRecord {
    type V = PrecedentRecordView;

    open spec fn view(&self) -> PrecedentRecordView {
        PrecedentRecordView {
            trial_type: self.trial_type,
            date: self.date,
            case_number: self.case_number@,
            case_name: self.case_name@,
            court_name: self.court_name@,
            right_type: self.right_type.deep_view(),
            lawsuit_type: self.lawsuit_type.deep_view(),
            result_type: self.result_type.deep_view(),
            result: self.result.deep_view(),
            article_info: self.article_info.deep_view(),
            original_court_name: self.original_court_name.deep_view(),
            original_case_number: self.original_case_number.deep_view(),
            original_result: self.original_result.deep_view(),
            original_date: self.original_date,
            field: self.field.deep_view(),
            gist: self.gist.deep_view(),
            case_gist: self.case_gist.deep_view(),
            ref_law: self.ref_law.deep_view(),
            lawsuit_id: self.lawsuit_id@,
            detail_page_link: self.detail_page_link@,
            contents: self.contents.deep_view(),
            full_pdf_link: self.full_pdf_link@,
        }
    }
}

/// What the final validation pass owes. The required slots are checked in
/// a fixed order — case number, case name, court name, judgment date,
/// full-text link — and the first one missing fails the record. The
/// judgment date must parse as era text; its failure aborts the record.
/// The originating-court date is supplementary: its parse failure only
/// leaves that field absent.
pub open spec fn spec_finish(d: RecordDraft, contents: Option<Seq<char>>) -> Result<
    PrecedentRecordView,
    Error,
> {
    if d.case_number is None {
        Err(Error::IncompleteRecord(Slot::CaseNumber))
    } else if d.case_name is None {
        Err(Error::IncompleteRecord(Slot::CaseName))
    } else if d.court_name is None {
        Err(Error::IncompleteRecord(Slot::CourtName))
    } else if d.date_text is None {
        Err(Error::IncompleteRecord(Slot::JudgmentDate))
    } else if d.full_pdf_link is None {
        Err(Error::IncompleteRecord(Slot::FullTextLink))
    } else {
        match spec_parse_era_text(d.date_text->Some_0) {
            Err(e) => Err(e),
            Ok(date) => Ok(
                PrecedentRecordView {
                    trial_type: d.trial_type,
                    date,
                    case_number: d.case_number->Some_0,
                    case_name: d.case_name->Some_0,
                    court_name: d.court_name->Some_0,
                    right_type: d.right_type,
                    lawsuit_type: d.lawsuit_type,
                    result_type: d.result_type,
                    result: d.result,
                    article_info: d.article_info,
                    original_court_name: d.original_court_name,
                    original_case_number: d.original_case_number,
                    original_result: d.original_result,
                    original_date: match d.original_date_text {
                        None => None,
                        Some(t) => match spec_parse_era_text(t) {
                            Ok(od) => Some(od),
                            Err(_) => None,
                        },
                    },
                    field: d.field,
                    gist: d.gist,
                    case_gist: d.case_gist,
                    ref_law: d.ref_law,
                    lawsuit_id: d.lawsuit_id,
                    detail_page_link: d.detail_page_link,
                    contents,
                    full_pdf_link: d.full_pdf_link->Some_0,
                },
            ),
        }
    }
}

impl RecordAssembler {
    /// Validates the accumulated slots and produces the immutable record.
    /// `contents` is the best-effort extracted full text a collaborator
    /// supplied, stored as given.
    pub fn finish(self, contents: Option<String>) -> (r: Result<PrecedentRecord, Error>)
        ensures
            match r {
                Ok(rec) => spec_finish(self@, contents.deep_view()) == Ok::<_, Error>(rec@),
                Err(e) => spec_finish(self@, contents.deep_view()) == Err::<
                    PrecedentRecordView,
                    _,
                >(e),
            },
    {
        let case_number = match self.case_number {
            Some(v) => v,
            None => {
                return Err(Error::IncompleteRecord(Slot::CaseNumber));
            },
        };
        let case_name = match self.case_name {
            Some(v) => v,
            None => {
                return Err(Error::IncompleteRecord(Slot::CaseName));
            },
        };
        let court_name = match self.court_name {
            Some(v) => v,
            None => {
                return Err(Error::IncompleteRecord(Slot::CourtName));
            },
        };
        let date_text = match self.date_text {
            Some(v) => v,
            None => {
                return Err(Error::IncompleteRecord(Slot::JudgmentDate));
            },
        };
        let full_pdf_link = match self.full_pdf_link {
            Some(v) => v,
            None => {
                return Err(Error::IncompleteRecord(Slot::FullTextLink));
            },
        };
        let date = match parse_era_text(date_text.as_str()) {
            Ok(d) => d,
            Err(e) => {
                return Err(e);
            },
        };
        let original_date = match &self.original_date_text {
            Some(t) => match parse_era_text(t.as_str()) {
                Ok(od) => Some(od),
                Err(_) => None,
            },
            None => None,
        };
        Ok(
            PrecedentRecord {
                trial_type: self.trial_type,
                date,
                case_number,
                case_name,
                court_name,
                right_type: self.right_type,
                lawsuit_type: self.lawsuit_type,
                result_type: self.result_type,
                result: self.result,
                article_info: self.article_info,
                original_court_name: self.original_court_name,
                original_case_number: self.original_case_number,
                original_result: self.original_result,
                original_date,
                field: self.field,
                gist: self.gist,
                case_gist: self.case_gist,
                ref_law: self.ref_law,
                lawsuit_id: self.lawsuit_id,
                detail_page_link: self.detail_page_link,
                contents,
                full_pdf_link,
            },
        )
    }
}

/// The lightweight summary projection of a record, as the index sink
/// lists it.
#[derive(Clone, Debug, PartialEq, Eq)]
pub struct PrecedentInfo {
    pub case_number: String,
    pub court_name: String,
    pub trial_type: TrialType,
    pub date: EraDate,
    pub lawsuit_id: String,
}

/// The mathematical value of a summary entry.
#[verifier::ext_equal]
pub struct PrecedentInfoView {
    pub case_number: Seq<char>,
    pub court_name: Seq<char>,
    pub trial_type: TrialType,
    pub date: EraDate,
    pub lawsuit_id: Seq<char>,
}

impl View for PrecedentInfo {
    type V = PrecedentInfoView;

    open spec fn view(&self) -> PrecedentInfoView {
        PrecedentInfoView {
            case_number: self.case_number@,
            court_name: self.court_name@,
            trial_type: self.trial_type,
            date: self.date,
            lawsuit_id: self.lawsuit_id@,
        }
    }
}

/// The summary a record projects to.
pub open spec fn spec_summary_of(r: PrecedentRecordView) -> PrecedentInfoView {
    PrecedentInfoView {
        case_number: r.case_number,
        court_name: r.court_name,
        trial_type: r.trial_type,
        date: r.date,
        lawsuit_id: r.lawsuit_id,
    }
}

/// Projects the summary fields out of a record.
pub fn summary_of(r: &PrecedentRecord) -> (s: PrecedentInfo)
    ensures
        s@ == spec_summary_of(r@),
{
    PrecedentInfo {
        case_number: r.case_number.clone(),
        court_name: r.court_name.clone(),
        trial_type: r.trial_type,
        date: r.date,
        lawsuit_id: r.lawsuit_id.clone(),
    }
}

/// The canonical name of each trial type, as emitted output spells it.
pub open spec fn spec_trial_type_name(t: TrialType) -> Seq<char> {
    match t {
        TrialType::SupremeCourt => "SupremeCourt"@,
        TrialType::HighCourt => "HighCourt"@,
        TrialType::LowerCourt => "LowerCourt"@,
        TrialType::AdministrativeCase => "AdministrativeCase"@,
        TrialType::LaborCase => "LaborCase"@,
        TrialType::IPCase => "IPCase"@,
    }
}

/// The spelled-out trial type.
pub fn trial_type_name(t: TrialType) -> (r: &'static str)
    ensures
        r@ == spec_trial_type_name(t),
{
    match t {
        TrialType::SupremeCourt => "SupremeCourt",
        TrialType::HighCourt => "HighCourt",
        TrialType::LowerCourt => "LowerCourt",
        TrialType::AdministrativeCase => "AdministrativeCase",
        TrialType::LaborCase => "LaborCase",
        TrialType::IPCase => "IPCase",
    }
}

/// The deterministic key a record's output file is named by: the summary
/// fields joined by underscores, the date as year, month and day in
/// decimal.
pub open spec fn spec_file_name(i: PrecedentInfoView) -> Seq<char> {
    i.case_number + "_"@ + i.court_name + "_"@ + spec_trial_type_name(i.trial_type) + "_"@
        + dec_str(i.date.year as int) + "_"@ + dec_str(i.date.month as int) + "_"@ + dec_str(
        i.date.day as int,
    ) + "_"@ + i.lawsuit_id
}

/// Builds the deterministic output file name of a summary entry.
pub fn file_name(info: &PrecedentInfo) -> (r: String)
    ensures
        r@ == spec_file_name(info@),
{
    let mut out = String::new();
    out.append(info.case_number.as_str());
    out.append("_");
    out.append(info.court_name.as_str());
    out.append("_");
    out.append(trial_type_name(info.trial_type));
    out.append("_");
    append_dec(&mut out, info.date.year);
    out.append("_");
    append_dec(&mut out, info.date.month);
    out.append("_");
    append_dec(&mut out, info.date.day);
    out.append("_");
    out.append(info.lawsuit_id.as_str());
    proof {
        assert(out@ =~= spec_file_name(info@));
    }
    out
}

/// An empty-after-trim value for a text slot leaves that slot exactly as
/// it was: the dispatch reports the slot as routed but stores nothing,
/// never an empty string.
pub proof fn lemma_empty_value_leaves_slot_unset(
    d: RecordDraft,
    label: Seq<char>,
    text: Seq<char>,
    href: Option<Seq<char>>,
)
    requires
        slot_of_label(label) is Some,
        slot_of_label(label) != Some(Slot::FullTextLink),
        trim_spec(text).len() == 0,
    ensures
        spec_dispatch(d, label, text, href) == Ok::<_, Error>(
            (d, DispatchOutcome::Updated(slot_of_label(label)->Some_0)),
        ),
{
}

/// Two synonymous label spellings dispatch any value identically: the
/// dispatch depends on the label only through the slot it routes to.
pub proof fn lemma_synonym_labels_dispatch_alike(
    d: RecordDraft,
    l1: Seq<char>,
    l2: Seq<char>,
    text: Seq<char>,
    href: Option<Seq<char>>,
)
    requires
        slot_of_label(l1) == slot_of_label(l2),
    ensures
        spec_dispatch(d, l1, text, href) == spec_dispatch(d, l2, text, href),
{
}

/// The three court-name spellings of the label table are synonyms: each
/// routes to the court-name slot.
pub proof fn lemma_court_name_synonyms()
    ensures
        slot_of_label("裁判所名"@) == Some(Slot::CourtName),
        slot_of_label("裁判所名・部"@) == Some(Slot::CourtName),
        slot_of_label("法廷名"@) == Some(Slot::CourtName),
{
    reveal_strlit("事件番号");
    reveal_strlit("事件名");
    reveal_strlit("裁判年月日");
    reveal_strlit("裁判所名");
    reveal_strlit("裁判所名・部");
    reveal_strlit("法廷名");
    assert("事件番号"@.len() == 4);
    assert("事件名"@.len() == 3);
    assert("裁判年月日"@.len() == 5);
    assert("裁判所名"@.len() == 4);
    assert("裁判所名・部"@.len() == 6);
    assert("法廷名"@.len() == 3);
    assert("裁判所名"@[0] == '裁');
    assert("事件番号"@[0] == '事');
    assert("法廷名"@[0] == '法');
    assert("事件名"@[0] == '事');
}

} // verus!
