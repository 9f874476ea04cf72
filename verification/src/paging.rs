//! The pagination driver: reading the total result count out of a listing
//! summary, the page arithmetic over it, and the sequential fold that
//! turns the ordered pages of labeled detail data into records — page
//! order first, in-page order second, never reordered.

use vstd::prelude::*;

use crate::date::run_end;
use crate::error::Error;
use crate::record::{
    spec_courts_domain, spec_dispatch, spec_finish, spec_new_draft, spec_summary_of, summary_of,
    PrecedentInfo, PrecedentRecord, PrecedentRecordView, RecordDraft,
};
use crate::link::{spec_first_query_value, spec_trial_type_of_link, start_record};
use crate::text::{chars_vec, dec_digit, group_val, is_dec_digit, parse_digit_group};

verus! {

/// Position of the first decimal digit of `s` at or after `i`, `-1` when
/// none follows.
pub open spec fn find_digit(s: Seq<char>, i: int) -> int
    decreases s.len() - i when 0 <= i
{
    if i >= s.len() {
        -1
    } else if is_dec_digit(s[i]) {
        i
    } else {
        find_digit(s, i + 1)
    }
}

proof fn lemma_find_digit_at(s: Seq<char>, j: int, i: int)
    requires
        0 <= j <= i <= s.len(),
        forall|k: int| j <= k < i ==> !is_dec_digit(#[trigger] s[k]),
        i == s.len() || is_dec_digit(s[i]),
    ensures
        find_digit(s, j) == if i == s.len() {
            -1
        } else {
            i
        },
    decreases i - j,
{
    if j < i {
        lemma_find_digit_at(s, j + 1, i);
    }
}

/// What the summary reader owes: the value of the first run of digits in
/// the text, `None` when the text holds no digit or the run overflows
/// `usize`.
pub open spec fn spec_total_count(s: Seq<char>) -> Option<int> {
    let f = find_digit(s, 0);
    if f < 0 {
        None
    } else {
        group_val(s, f, run_end(s, f))
    }
}

/// Reads the total result count out of a listing summary such as
/// `64297件中1～10件を表示`: the leading run of digits.
pub fn total_count(s: &str) -> (r: Option<usize>)
    ensures
        r matches Some(n) ==> spec_total_count(s@) == Some(n as int),
        r is None ==> spec_total_count(s@) is None,
{
    let v = chars_vec(s);
    let n = v.len();
    let mut i: usize = 0;
    while i < n && !dec_digit(v[i])
        invariant
            i <= n,
            n == v@.len(),
            v@ == s@,
            forall|k: int| 0 <= k < i ==> !is_dec_digit(#[trigger] v@[k]),
        decreases n - i,
    {
        i = i + 1;
    }
    proof {
        lemma_find_digit_at(v@, 0, i as int);
    }
    if i >= n {
        return None;
    }
    let e = crate::date::run_end_exec(&v, i);
    parse_digit_group(&v, i, e)
}

/// Pages of ten: the number of listing pages `n` results occupy, the
/// division rounded up.
pub open spec fn spec_page_count(n: int) -> int {
    if n % 10 == 0 {
        n / 10
    } else {
        n / 10 + 1
    }
}

/// The number of listing pages that hold `n` results.
pub fn page_count(n: usize) -> (r: usize)
    ensures
        r == spec_page_count(n as int),
{
    if n % 10 == 0 {
        n / 10
    } else {
        n / 10 + 1
    }
}

/// The counting step of a run, executed once on the first listing page:
/// reads the total result count out of the summary text and turns it into
/// the number of pages to walk. `Error::MissingResultCount` exactly when
/// the summary shows no readable count.
pub fn pages_of_summary(s: &str) -> (r: Result<usize, Error>)
    ensures
        r matches Ok(p) ==> spec_total_count(s@) matches Some(n) && p == spec_page_count(n),
        r matches Err(e) ==> spec_total_count(s@) is None && e == Error::MissingResultCount,
{
    match total_count(s) {
        Some(n) => Ok(page_count(n)),
        None => Err(Error::MissingResultCount),
    }
}

/// One labeled value of a detail page: the label text, the paragraph text
/// under it, and — where the value is an anchor — its link target.
pub struct FieldSource {
    pub label: String,
    pub text: String,
    pub href: Option<String>,
}

/// Everything one detail page hands the assembler: the relative link the
/// listing carried, the labeled values in document order, and the
/// best-effort extracted full text.
pub struct DetailSource {
    pub link: String,
    pub fields: Vec<FieldSource>,
    pub contents: Option<String>,
}

/// One listing page: its detail records in document order.
pub struct PageSource {
    pub details: Vec<DetailSource>,
}

/// Dispatching a run of labeled values into a draft, in order; the first
/// fatal dispatch stops the fold.
pub open spec fn spec_dispatch_all(d: RecordDraft, fields: Seq<FieldSource>) -> Result<
    RecordDraft,
    Error,
> {
    spec_dispatch_all_rec(d, fields, 0)
}

/// The fold of `spec_dispatch_all` from position `i` on.
pub open spec fn spec_dispatch_all_rec(d: RecordDraft, fields: Seq<FieldSource>, i: int) -> Result<
    RecordDraft,
    Error,
>
    decreases fields.len() - i when 0 <= i
{
    if i >= fields.len() {
        Ok(d)
    } else {
        match spec_dispatch(d, fields[i].label@, fields[i].text@, fields[i].href.deep_view()) {
            Err(e) => Err(e),
            Ok((d2, _)) => spec_dispatch_all_rec(d2, fields, i + 1),
        }
    }
}

/// What assembling one detail page owes: trial type and lawsuit id derived
/// from the link, every labeled value dispatched in order, and the final
/// validation pass — the composition of the per-step contracts.
pub open spec fn spec_assemble(d: DetailSource) -> Result<PrecedentRecordView, Error> {
    match spec_trial_type_of_link(d.link@) {
        Err(e) => Err(e),
        Ok(tt) => {
            let full = spec_courts_domain() + d.link@;
            match spec_first_query_value(full) {
                None => Err(Error::UnexpectedLinkShape),
                Some(id) => match spec_dispatch_all(spec_new_draft(tt, id, full), d.fields@) {
                    Err(e) => Err(e),
                    Ok(draft) => spec_finish(draft, d.contents.deep_view()),
                },
            }
        },
    }
}

/// Assembles the record of one detail page from its extracted data.
pub fn assemble_record(d: &DetailSource) -> (r: Result<PrecedentRecord, Error>)
    ensures
        r matches Ok(rec) ==> spec_assemble(*d) == Ok::<_, Error>(rec@),
        r matches Err(e) ==> spec_assemble(*d) == Err::<PrecedentRecordView, _>(e),
{
    let mut builder = match start_record(d.link.as_str()) {
        Ok(a) => a,
        Err(e) => {
            return Err(e);
        },
    };
    let n = d.fields.len();
    let mut i: usize = 0;
    while i < n
        invariant
            i <= n,
            n == d.fields@.len(),
            spec_assemble(*d) == match spec_dispatch_all_rec(builder@, d.fields@, i as int) {
                Err(e) => Err(e),
                Ok(draft) => spec_finish(draft, d.contents.deep_view()),
            },
        decreases n - i,
    {
        let f = &d.fields[i];
        let href: Option<&str> = match &f.href {
            Some(h) => Some(h.as_str()),
            None => None,
        };
        match builder.dispatch(f.label.as_str(), f.text.as_str(), href) {
            Ok(_) => {},
            Err(e) => {
                return Err(e);
            },
        }
        i = i + 1;
    }
    let contents = match &d.contents {
        Some(c) => Some(c.clone()),
        None => None,
    };
    proof {
        assert(contents.deep_view() =~= d.contents.deep_view());
    }
    builder.finish(contents)
}

/// The detail pages of a run, flattened in page order then in-page order.
pub open spec fn all_details(pages: Seq<PageSource>) -> Seq<DetailSource>
    decreases pages.len(),
{
    if pages.len() == 0 {
        Seq::empty()
    } else {
        pages[0].details@ + all_details(pages.drop_first())
    }
}

proof fn lemma_all_details_split(pages: Seq<PageSource>, i: int)
    requires
        0 <= i < pages.len(),
    ensures
        all_details(pages.skip(i)) == pages[i].details@ + all_details(pages.skip(i + 1)),
{
    let t = pages.skip(i);
    assert(t[0] == pages[i]);
    assert(t.drop_first() =~= pages.skip(i + 1));
}

/// Walks the pages in order and assembles every detail record, emitting
/// the records and their summary projections in encounter order — page
/// order first, in-page document order second. The first fatal record
/// halts the whole run, exactly where it stood.
pub fn collect_records(pages: &Vec<PageSource>) -> (r: Result<
    (Vec<PrecedentRecord>, Vec<PrecedentInfo>),
    Error,
>)
    ensures
        match r {
            Ok((recs, infos)) => {
                &&& recs@.len() == all_details(pages@).len()
                &&& infos@.len() == recs@.len()
                &&& forall|k: int|
                    0 <= k < recs@.len() ==> spec_assemble(all_details(pages@)[k]) == Ok::<
                        _,
                        Error,
                    >(#[trigger] recs@[k]@)
                &&& forall|k: int|
                    0 <= k < recs@.len() ==> #[trigger] infos@[k]@ == spec_summary_of(recs@[k]@)
            },
            Err(e) => exists|k: int|
                {
                    &&& 0 <= k < all_details(pages@).len()
                    &&& spec_assemble(#[trigger] all_details(pages@)[k]) == Err::<
                        PrecedentRecordView,
                        _,
                    >(e)
                    &&& forall|j: int|
                        0 <= j < k ==> spec_assemble(#[trigger] all_details(pages@)[j]) is Ok
                },
        },
{
    let ghost all = all_details(pages@);
    let mut recs: Vec<PrecedentRecord> = Vec::new();
    let mut infos: Vec<PrecedentInfo> = Vec::new();
    let np = pages.len();
    let mut i: usize = 0;
    proof {
        assert(pages@.skip(0) =~= pages@);
        assert(all =~= all.take(0) + all_details(pages@.skip(0)));
    }
    while i < np
        invariant
            i <= np,
            np == pages@.len(),
            all == all_details(pages@),
            recs@.len() <= all.len(),
            all =~= all.take(recs@.len() as int) + all_details(pages@.skip(i as int)),
            infos@.len() == recs@.len(),
            forall|k: int|
                0 <= k < recs@.len() ==> spec_assemble(all[k]) == Ok::<_, Error>(
                    #[trigger] recs@[k]@,
                ),
            forall|k: int|
                0 <= k < recs@.len() ==> #[trigger] infos@[k]@ == spec_summary_of(recs@[k]@),
        decreases np - i,
    {
        proof {
            lemma_all_details_split(pages@, i as int);
        }
        let page = &pages[i];
        let nd = page.details.len();
        let mut j: usize = 0;
        while j < nd
            invariant
                j <= nd,
                i < np,
                np == pages@.len(),
                nd == pages@[i as int].details@.len(),
                *page == pages@[i as int],
                all == all_details(pages@),
                recs@.len() <= all.len(),
                all =~= all.take(recs@.len() as int) + pages@[i as int].details@.skip(j as int)
                    + all_details(pages@.skip(i + 1)),
                infos@.len() == recs@.len(),
                forall|k: int|
                    0 <= k < recs@.len() ==> spec_assemble(all[k]) == Ok::<_, Error>(
                        #[trigger] recs@[k]@,
                    ),
                forall|k: int|
                    0 <= k < recs@.len() ==> #[trigger] infos@[k]@ == spec_summary_of(recs@[k]@),
            decreases nd - j,
        {
            let ghost done = recs@.len() as int;
            let d = &page.details[j];
            proof {
                let ds = pages@[i as int].details@;
                assert(ds.skip(j as int)[0] == ds[j as int]);
                assert(all == all.take(done) + ds.skip(j as int) + all_details(pages@.skip(i + 1)));
                assert(all.take(done).len() == done);
                assert((all.take(done) + ds.skip(j as int))[done] == ds.skip(j as int)[0]);
                assert(all[done] == ds[j as int]);
                assert(all[done] == *d);
            }
            match assemble_record(d) {
                Ok(rec) => {
                    let info = summary_of(&rec);
                    recs.push(rec);
                    infos.push(info);
                    proof {
                        assert(pages@[i as int].details@.skip(j as int).drop_first()
                            =~= pages@[i as int].details@.skip(j + 1));
                        assert(all.take(done) + pages@[i as int].details@.skip(j as int)
                            =~= all.take(done + 1) + pages@[i as int].details@.skip(j + 1));
                        assert(all =~= all.take(recs@.len() as int) + pages@[i as int].details@.skip(
                            j + 1,
                        ) + all_details(pages@.skip(i + 1)));
                    }
                },
                Err(e) => {
                    proof {
                        assert(spec_assemble(all[done]) == Err::<PrecedentRecordView, _>(e));
                        assert(done < all.len());
                        assert forall|jj: int| 0 <= jj < done implies spec_assemble(
                            #[trigger] all[jj],
                        ) is Ok by {
                            assert(spec_assemble(all[jj]) == Ok::<_, Error>(recs@[jj]@));
                        }
                        assert(all_details(pages@)[done] == all[done]);
                        assert(forall|jj: int|
                            0 <= jj < done ==> spec_assemble(
                                #[trigger] all_details(pages@)[jj],
                            ) is Ok);
                    }
                    return Err(e);
                },
            }
            j = j + 1;
        }
        proof {
            assert(pages@[i as int].details@.skip(nd as int) =~= Seq::<DetailSource>::empty());
            lemma_all_details_split(pages@, i as int);
            assert(all =~= all.take(recs@.len() as int) + all_details(pages@.skip(i + 1)));
        }
        i = i + 1;
    }
    proof {
        assert(all_details(pages@.skip(np as int)) =~= Seq::<DetailSource>::empty());
        assert(all =~= all.take(recs@.len() as int));
        assert(recs@.len() == all.len());
    }
    Ok((recs, infos))
}

} // verus!
