//! The pagination driver: pages are consumed in increasing order, each
//! non-empty page is archived and extracted, and the crawl ends either at
//! the first blank body (clean end of data) or when the page counter
//! reaches the ceiling (a distinct, non-fatal outcome). A structural
//! parse failure aborts the crawl at once.
//!
//! The driver is a pure function of the sequence of response bodies; a
//! page past the end of the given sequence counts as blank, so a finite
//! sequence models an endpoint that is eventually exhausted.

use vstd::prelude::*;

use crate::extract::{extract, page_parse, PageExtract};
use crate::question::{Question, QuestionV, StructureError};
use crate::text::{blank, dec_spec, dec_str, is_blank};
use crate::PAGE_LIMIT;

verus! {

/// The body the endpoint returns for `page`: the given one, or blank when
/// the stub sequence is exhausted.
pub open spec fn body_at(bodies: Seq<Seq<char>>, page: int) -> Seq<char> {
    if 1 <= page && page <= bodies.len() {
        bodies[page - 1]
    } else {
        Seq::empty()
    }
}

/// The page at which a crawl that is at page `p` will stop: the first
/// blank page at or after `p`, or the ceiling when none comes before it.
pub open spec fn end_page(bodies: Seq<Seq<char>>, p: int) -> int
    decreases PAGE_LIMIT - p,
{
    if p < 1 || p >= PAGE_LIMIT {
        PAGE_LIMIT as int
    } else if blank(body_at(bodies, p)) {
        p
    } else {
        end_page(bodies, p + 1)
    }
}

/// Whether a page body extracts without a structural failure.
pub open spec fn page_good(b: Seq<char>) -> bool {
    page_parse(b) is Ok
}

/// The records of a page that extracts cleanly.
pub open spec fn page_questions(b: Seq<char>) -> Seq<QuestionV> {
    match page_parse(b) {
        Ok(r) => r.0,
        Err(_) => Seq::empty(),
    }
}

/// Whether a page that extracts cleanly had a block with more than one
/// answer marked correct.
pub open spec fn page_multi(b: Seq<char>) -> bool {
    match page_parse(b) {
        Ok(r) => r.1,
        Err(_) => false,
    }
}

/// The structural failure of a page that does not extract.
pub open spec fn page_err(b: Seq<char>) -> StructureError {
    match page_parse(b) {
        Ok(_) => arbitrary(),
        Err(e) => e,
    }
}

/// The human-readable marker written to the archive before a page's body.
pub open spec fn marker_spec(page: int) -> Seq<char> {
    "<!-- Page "@ + dec_spec(page) + " -->\n"@
}

/// The archive of the first `count` pages: each body in fetch order,
/// preceded by its page marker and followed by a newline.
pub open spec fn archive_spec(bodies: Seq<Seq<char>>, count: int) -> Seq<char>
    decreases count,
{
    if count <= 0 {
        Seq::empty()
    } else {
        archive_spec(bodies, count - 1) + marker_spec(count) + body_at(bodies, count) + "\n"@
    }
}

/// The stopping page lies between the current page and the ceiling.
pub proof fn lemma_end_page_bounds(bodies: Seq<Seq<char>>, p: int)
    requires
        1 <= p <= PAGE_LIMIT,
    ensures
        p <= end_page(bodies, p) <= PAGE_LIMIT,
    decreases PAGE_LIMIT - p,
{
    if p < PAGE_LIMIT && !blank(body_at(bodies, p)) {
        lemma_end_page_bounds(bodies, p + 1);
    }
}

/// A crawl over bodies that reach a blank page before the ceiling stops
/// exactly at the first blank page: every earlier page is non-empty, and
/// the page-limit outcome is not reported.
pub proof fn lemma_clean_termination(bodies: Seq<Seq<char>>, p: int)
    requires
        1 <= p < PAGE_LIMIT,
        blank(body_at(bodies, p)),
    ensures
        end_page(bodies, 1) < PAGE_LIMIT as int,
        blank(body_at(bodies, end_page(bodies, 1))),
        forall|q: int| 1 <= q < end_page(bodies, 1) ==> !blank(body_at(bodies, q)),
{
    lemma_first_blank(bodies, 1, p);
}

proof fn lemma_first_blank(bodies: Seq<Seq<char>>, s: int, p: int)
    requires
        1 <= s <= p < PAGE_LIMIT,
        blank(body_at(bodies, p)),
    ensures
        s <= end_page(bodies, s) <= p,
        blank(body_at(bodies, end_page(bodies, s))),
        forall|q: int| s <= q < end_page(bodies, s) ==> !blank(body_at(bodies, q)),
    decreases p - s,
{
    if !blank(body_at(bodies, s)) {
        lemma_first_blank(bodies, s + 1, p);
    }
}

/// A crawl over bodies that are never blank before the ceiling stops
/// exactly at the ceiling.
pub proof fn lemma_limit_termination(bodies: Seq<Seq<char>>)
    requires
        forall|p: int| 1 <= p < PAGE_LIMIT ==> !blank(body_at(bodies, p)),
    ensures
        end_page(bodies, 1) == PAGE_LIMIT as int,
{
    lemma_no_blank(bodies, 1);
}

proof fn lemma_no_blank(bodies: Seq<Seq<char>>, s: int)
    requires
        1 <= s <= PAGE_LIMIT,
        forall|p: int| s <= p < PAGE_LIMIT ==> !blank(body_at(bodies, p)),
    ensures
        end_page(bodies, s) == PAGE_LIMIT as int,
    decreases PAGE_LIMIT - s,
{
    if s < PAGE_LIMIT {
        lemma_no_blank(bodies, s + 1);
    }
}

/// What one crawl produced: one batch of records per non-empty page, in
/// page order; the raw archive with page markers; how many pages were
/// consumed; whether the page ceiling, rather than a blank body, ended
/// the crawl; and whether any block had more than one answer marked
/// correct.
#[derive(Debug)]
pub struct CrawlReport {
    pub batches: Vec<Vec<Question>>,
    pub archive: String,
    pub pages_consumed: usize,
    pub limit_hit: bool,
    pub multiple_correct: bool,
}

/// Crawl a sequence of page bodies, pages numbered from 1. Consumes pages
/// in order until the first blank body or the ceiling; archives and
/// extracts every consumed page; aborts with the first structural
/// failure.
pub fn crawl(bodies: &Vec<String>) -> (r: Result<CrawlReport, StructureError>)
    ensures
        ({
            let bs = bodies.deep_view();
            let end = end_page(bs, 1);
            match r {
                Ok(rep) => {
                    &&& forall|p: int| 1 <= p < end ==> page_good(body_at(bs, p))
                    &&& rep.pages_consumed as int == end - 1
                    &&& rep.limit_hit == (end == PAGE_LIMIT as int)
                    &&& rep.batches.deep_view() == Seq::new(
                        (end - 1) as nat,
                        |i: int| page_questions(body_at(bs, i + 1)),
                    )
                    &&& rep.multiple_correct == (exists|p: int|
                        1 <= p < end && page_multi(body_at(bs, p)))
                    &&& rep.archive@ == archive_spec(bs, end - 1)
                },
                Err(e) => exists|k: int|
                    {
                        &&& 1 <= k < end
                        &&& !page_good(body_at(bs, k))
                        &&& forall|p: int| 1 <= p < k ==> page_good(body_at(bs, p))
                        &&& e == page_err(body_at(bs, k))
                    },
            }
        }),
{
    let ghost bs = bodies.deep_view();
    let mut batches: Vec<Vec<Question>> = Vec::new();
    let mut archive = String::new();
    let mut multi = false;
    let mut page: usize = 1;
    proof {
        assert(archive@ =~= archive_spec(bs, 0));
        assert(batches.deep_view() =~= Seq::new(
            0,
            |i: int| page_questions(body_at(bs, i + 1)),
        ));
    }
    #[verifier::loop_isolation(false)]
    while page < PAGE_LIMIT
        invariant
            1 <= page <= PAGE_LIMIT,
            bs == bodies.deep_view(),
            end_page(bs, 1) == end_page(bs, page as int),
            forall|p: int| 1 <= p < page ==> !blank(body_at(bs, p)),
            forall|p: int| 1 <= p < page ==> page_good(body_at(bs, p)),
            batches.deep_view() == Seq::new(
                (page - 1) as nat,
                |i: int| page_questions(body_at(bs, i + 1)),
            ),
            multi == (exists|p: int| 1 <= p < page && page_multi(body_at(bs, p))),
            archive@ == archive_spec(bs, page - 1),
        decreases PAGE_LIMIT - page,
    {
        let idx = page - 1;
        let body_blank: bool;
        if idx < bodies.len() {
            proof {
                assert(bs[idx as int] == bodies[idx as int].deep_view());
                assert(body_at(bs, page as int) == bs[idx as int]);
            }
            body_blank = is_blank(bodies[idx].as_str());
        } else {
            proof {
                assert(body_at(bs, page as int) =~= Seq::<char>::empty());
            }
            body_blank = true;
        }
        if body_blank {
            proof {
                assert(end_page(bs, page as int) == page as int);
            }
            return Ok(
                CrawlReport {
                    batches,
                    archive,
                    pages_consumed: page - 1,
                    limit_hit: false,
                    multiple_correct: multi,
                },
            );
        }
        let ghost archive_before = archive@;
        archive.append("<!-- Page ");
        let pstr = dec_str(page);
        archive.append(pstr.as_str());
        archive.append(" -->\n");
        archive.append(bodies[idx].as_str());
        archive.append("\n");
        proof {
            assert(archive@ =~= archive_spec(bs, page as int));
        }
        match extract(bodies[idx].as_str()) {
            Err(e) => {
                proof {
                    lemma_end_page_bounds(bs, page as int + 1);
                    assert(end_page(bs, page as int) == end_page(bs, page as int + 1));
                    let k = page as int;
                    assert({
                        &&& 1 <= k < end_page(bs, 1)
                        &&& !page_good(body_at(bs, k))
                        &&& forall|p: int| 1 <= p < k ==> page_good(body_at(bs, p))
                        &&& e == page_err(body_at(bs, k))
                    });
                }
                return Err(e);
            },
            Ok(pe) => {
                let ghost before = batches.deep_view();
                let ghost pushed = pe.questions.deep_view();
                let pe_multi = pe.multiple_correct;
                batches.push(pe.questions);
                if pe_multi {
                    multi = true;
                }
                proof {
                    assert(pushed == page_questions(body_at(bs, page as int)));
                    assert(before.len() == page - 1);
                    assert(batches@.len() == page as int);
                    assert(batches.deep_view().len() == page as int);
                    assert(batches.deep_view()[page - 1] == pushed);
                    let ghost target = Seq::new(
                        page as nat,
                        |i: int| page_questions(body_at(bs, i + 1)),
                    );
                    assert forall|i: int| 0 <= i < page as int implies batches.deep_view()[i]
                        == target[i] by {
                        if i < page - 1 {
                            assert(batches.deep_view()[i] == before[i]);
                            assert(before[i] == page_questions(body_at(bs, i + 1)));
                        } else {
                            assert(batches.deep_view()[i] == pushed);
                        }
                    }
                    assert(batches.deep_view() =~= target);
                    if pe_multi {
                        assert(page_multi(body_at(bs, page as int)));
                        assert(1 <= (page as int) < (page as int) + 1 && page_multi(
                            body_at(bs, page as int),
                        ));
                    }
                    if multi && !pe_multi {
                        let p0 = choose|p: int|
                            1 <= p < page && page_multi(body_at(bs, p));
                        assert(1 <= p0 < page as int + 1 && page_multi(body_at(bs, p0)));
                    }
                    if exists|p: int| 1 <= p < page + 1 && page_multi(body_at(bs, p)) {
                        let p0 = choose|p: int|
                            1 <= p < page + 1 && page_multi(body_at(bs, p));
                        if p0 < page {
                            assert(1 <= p0 < page && page_multi(body_at(bs, p0)));
                        }
                    }
                }
                page = page + 1;
            },
        }
    }
    proof {
        assert(end_page(bs, page as int) == PAGE_LIMIT as int);
    }
    Ok(
        CrawlReport {
            batches,
            archive,
            pages_consumed: PAGE_LIMIT - 1,
            limit_hit: true,
            multiple_correct: multi,
        },
    )
}

} // verus!
