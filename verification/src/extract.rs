//! The markup extractor: locates each question block of one listing page
//! through fixed structural selectors and turns it into a `Question`
//! record. Pure and deterministic in the page text; any required element
//! that is absent is a structural failure that aborts the run.

use vstd::prelude::*;

use crate::markup::{
    root_attr, root_attr_of, select_links, select_outer, select_texts, selected_links,
    selected_outer, selected_texts, text_parts, text_parts_of,
};
use crate::question::{MediaV, Question, QuestionMedia, QuestionV, StructureError};
use crate::text::{norm_seq, normalize_text, str_eq};

verus! {

/// Selector of the question blocks of a page.
pub open spec fn sel_question() -> Seq<char> {
    "body > div.QuestionPanel"@
}

/// Selector of the question-text element inside a block.
pub open spec fn sel_qtext() -> Seq<char> {
    "div.QuestionText"@
}

/// Selector of the code element inside the question-text element.
pub open spec fn sel_code() -> Seq<char> {
    "span.QuestionCode"@
}

/// Selector of the change-date element inside the question-text element.
pub open spec fn sel_date() -> Seq<char> {
    "span.QuestionChangeDate"@
}

/// Selector of the answer blocks inside a question block.
pub open spec fn sel_answer() -> Seq<char> {
    "div.AnswersPanel > div.Answer"@
}

/// Selector of the answer-text link inside an answer block.
pub open spec fn sel_answer_text() -> Seq<char> {
    "div.AnswerText > a"@
}

/// Selector of the video source inside a question block.
pub open spec fn sel_video() -> Seq<char> {
    "div.QuestionImagePanel > video > source"@
}

/// Selector of the image inside a question block.
pub open spec fn sel_image() -> Seq<char> {
    "div.QuestionImagePanel > img"@
}

fn sel_question_str() -> (r: &'static str)
    ensures
        r@ == sel_question(),
{
    "body > div.QuestionPanel"
}

fn sel_qtext_str() -> (r: &'static str)
    ensures
        r@ == sel_qtext(),
{
    "div.QuestionText"
}

fn sel_code_str() -> (r: &'static str)
    ensures
        r@ == sel_code(),
{
    "span.QuestionCode"
}

fn sel_date_str() -> (r: &'static str)
    ensures
        r@ == sel_date(),
{
    "span.QuestionChangeDate"
}

fn sel_answer_str() -> (r: &'static str)
    ensures
        r@ == sel_answer(),
{
    "div.AnswersPanel > div.Answer"
}

fn sel_answer_text_str() -> (r: &'static str)
    ensures
        r@ == sel_answer_text(),
{
    "div.AnswerText > a"
}

fn sel_video_str() -> (r: &'static str)
    ensures
        r@ == sel_video(),
{
    "div.QuestionImagePanel > video > source"
}

fn sel_image_str() -> (r: &'static str)
    ensures
        r@ == sel_image(),
{
    "div.QuestionImagePanel > img"
}

/// One answer of a block: its correctness flag and its raw display text.
pub open spec fn answer_parse(a: Seq<char>) -> Result<(bool, Seq<char>), StructureError> {
    match root_attr_of(a, "data-correct"@) {
        Option::None => Err(StructureError::AnswerFlagMissing),
        Option::Some(flag) => {
            let texts = selected_texts(a, sel_answer_text());
            if texts.len() == 0 {
                Err(StructureError::AnswerTextMissing)
            } else {
                Ok((flag == "True"@, texts[0]))
            }
        },
    }
}

/// The answers of a block from index `i` on, or the first structural
/// failure among them.
pub open spec fn answers_parse_from(hs: Seq<Seq<char>>, i: int) -> Result<
    Seq<(bool, Seq<char>)>,
    StructureError,
>
    decreases hs.len() - i,
{
    if i < 0 || i >= hs.len() {
        Ok(Seq::empty())
    } else {
        match answer_parse(hs[i]) {
            Err(e) => Err(e),
            Ok(a) => match answers_parse_from(hs, i + 1) {
                Err(e) => Err(e),
                Ok(rest) => Ok(seq![a] + rest),
            },
        }
    }
}

/// All answers of a block, in block order.
pub open spec fn answers_parse(hs: Seq<Seq<char>>) -> Result<
    Seq<(bool, Seq<char>)>,
    StructureError,
> {
    answers_parse_from(hs, 0)
}

/// Index of the first answer marked correct from `i` on, or 0 when none
/// is.
pub open spec fn right_index_from(ans: Seq<(bool, Seq<char>)>, i: int) -> int
    decreases ans.len() - i,
{
    if i < 0 || i >= ans.len() {
        0
    } else if ans[i].0 {
        i
    } else {
        right_index_from(ans, i + 1)
    }
}

/// Index of the answer that becomes `right_answer`: the first one marked
/// correct, or the first answer when none is marked correct.
pub open spec fn right_index(ans: Seq<(bool, Seq<char>)>) -> int {
    right_index_from(ans, 0)
}

/// Number of answers marked correct from `i` on.
pub open spec fn count_correct_from(ans: Seq<(bool, Seq<char>)>, i: int) -> int
    decreases ans.len() - i,
{
    if i < 0 || i >= ans.len() {
        0
    } else {
        (if ans[i].0 {
            1int
        } else {
            0int
        }) + count_correct_from(ans, i + 1)
    }
}

/// Number of answers marked correct.
pub open spec fn count_correct(ans: Seq<(bool, Seq<char>)>) -> int {
    count_correct_from(ans, 0)
}

/// The media of a block: the first video source wins, else the first
/// image, else nothing. A present element without a source URL is a
/// structural failure.
pub open spec fn media_parse_block(b: Seq<char>) -> Result<MediaV, StructureError> {
    let vids = selected_links(b, sel_video(), "src"@);
    if vids.len() > 0 {
        match vids[0].0 {
            Option::None => Err(StructureError::VideoSrcMissing),
            Option::Some(u) => Ok(MediaV::Video(u)),
        }
    } else {
        let imgs = selected_links(b, sel_image(), "src"@);
        if imgs.len() > 0 {
            match imgs[0].0 {
                Option::None => Err(StructureError::ImageSrcMissing),
                Option::Some(u) => Ok(MediaV::Image(u)),
            }
        } else {
            Ok(MediaV::NoMedia)
        }
    }
}

/// What one question block parses to: a record together with the flag
/// that more than one answer was marked correct, or the first structural
/// failure in the block, in the order the block is read.
#[verifier::ext_equal]
pub enum BlockOutcome {
    Good(QuestionV, bool),
    Bad(StructureError),
}

/// The record of one question block. The prompt is the last text node of
/// the question-text element, normalized; code and date are verbatim; the
/// right answer is the first one marked correct (the first answer, when
/// none is marked); the remaining answers keep their original order.
pub open spec fn block_parse(b: Seq<char>) -> BlockOutcome {
    let qts = selected_outer(b, sel_qtext());
    if qts.len() == 0 {
        BlockOutcome::Bad(StructureError::QuestionTextMissing)
    } else {
        let qt = qts[0];
        match answers_parse(selected_outer(b, sel_answer())) {
            Err(e) => BlockOutcome::Bad(e),
            Ok(ans) => {
                let texts = text_parts_of(qt);
                let dates = selected_texts(qt, sel_date());
                let codes = selected_texts(qt, sel_code());
                if texts.len() == 0 {
                    BlockOutcome::Bad(StructureError::PromptMissing)
                } else if dates.len() == 0 {
                    BlockOutcome::Bad(StructureError::DateMissing)
                } else if codes.len() == 0 {
                    BlockOutcome::Bad(StructureError::CodeMissing)
                } else if ans.len() == 0 {
                    BlockOutcome::Bad(StructureError::AnswersMissing)
                } else {
                    match media_parse_block(b) {
                        Err(e) => BlockOutcome::Bad(e),
                        Ok(m) => {
                            let k = right_index(ans);
                            let ws = ans.remove(k);
                            BlockOutcome::Good(
                                QuestionV {
                                    code: codes[0],
                                    change_date: dates[0],
                                    question: norm_seq(texts.last()),
                                    media: m,
                                    right_answer: norm_seq(ans[k].1),
                                    first_wrong_answer: if ws.len() > 0 {
                                        Some(norm_seq(ws[0].1))
                                    } else {
                                        None
                                    },
                                    second_wrong_answer: if ws.len() > 1 {
                                        Some(norm_seq(ws[1].1))
                                    } else {
                                        None
                                    },
                                },
                                count_correct(ans) > 1,
                            )
                        },
                    }
                }
            },
        }
    }
}

/// The records of the blocks of a page from index `i` on, with the
/// multiple-correct flag of any of them, or the first structural failure.
pub open spec fn page_parse_from(blocks: Seq<Seq<char>>, i: int) -> Result<
    (Seq<QuestionV>, bool),
    StructureError,
>
    decreases blocks.len() - i,
{
    if i < 0 || i >= blocks.len() {
        Ok((Seq::empty(), false))
    } else {
        match block_parse(blocks[i]) {
            BlockOutcome::Bad(e) => Err(e),
            BlockOutcome::Good(q, m) => match page_parse_from(blocks, i + 1) {
                Err(e) => Err(e),
                Ok(rest) => Ok((seq![q] + rest.0, m || rest.1)),
            },
        }
    }
}

/// What one page extracts to: its records in page order with the
/// multiple-correct flag, or the first structural failure among its
/// blocks.
pub open spec fn page_parse(page: Seq<char>) -> Result<(Seq<QuestionV>, bool), StructureError> {
    page_parse_from(selected_outer(page, sel_question()), 0)
}

/// The records of one page, in page order, and whether any block had more
/// than one answer marked correct (a data-quality oddity worth surfacing).
#[derive(Debug, PartialEq, Eq)]
pub struct PageExtract {
    pub questions: Vec<Question>,
    pub multiple_correct: bool,
}

/// Index of the first answer marked correct, or 0 when none is.
fn find_right_index(ans: &Vec<(bool, String)>) -> (k: usize)
    ensures
        k as int == right_index(ans.deep_view()),
        ans.deep_view().len() > 0 ==> (k as int) < ans.deep_view().len(),
{
    let ghost av = ans.deep_view();
    let n = ans.len();
    let mut j: usize = 0;
    while j < n
        invariant
            n == av.len() == ans.deep_view().len(),
            av == ans.deep_view(),
            j <= n,
            right_index(av) == right_index_from(av, j as int),
        decreases n - j,
    {
        if ans[j].0 {
            proof {
                assert(av[j as int].0 == ans[j as int].deep_view().0);
            }
            return j;
        }
        proof {
            assert(av[j as int].0 == ans[j as int].deep_view().0);
        }
        j = j + 1;
    }
    0
}

/// Number of answers marked correct.
fn find_correct_count(ans: &Vec<(bool, String)>) -> (c: usize)
    ensures
        c as int == count_correct(ans.deep_view()),
{
    let ghost av = ans.deep_view();
    let n = ans.len();
    let mut c: usize = 0;
    let mut j: usize = 0;
    while j < n
        invariant
            n == av.len() == ans.deep_view().len(),
            av == ans.deep_view(),
            j <= n,
            c <= j,
            count_correct(av) == c + count_correct_from(av, j as int),
        decreases n - j,
    {
        proof {
            assert(av[j as int].0 == ans[j as int].deep_view().0);
        }
        if ans[j].0 {
            c = c + 1;
        }
        j = j + 1;
    }
    c
}

/// Parse one question block. Returns the record and whether more than one
/// answer was marked correct, or the block's first structural failure.
pub fn parse_block(b: &str) -> (r: Result<(Question, bool), StructureError>)
    ensures
        match r {
            Ok(p) => block_parse(b@) == BlockOutcome::Good(p.0@, p.1),
            Err(e) => block_parse(b@) == BlockOutcome::Bad(e),
        },
{
    let qts = select_outer(b, sel_qtext_str());
    if qts.len() == 0 {
        return Err(StructureError::QuestionTextMissing);
    }
    let ans_htmls = select_outer(b, sel_answer_str());
    let ghost ahs = ans_htmls.deep_view();
    let mut ans: Vec<(bool, String)> = Vec::new();
    let mut i: usize = 0;
    #[verifier::loop_isolation(false)]
    while i < ans_htmls.len()
        invariant
            ahs == ans_htmls.deep_view(),
            ahs == selected_outer(b@, sel_answer()),
            i <= ans_htmls.len() == ahs.len(),
            ans.deep_view().len() == i,
            answers_parse(ahs) == (match answers_parse_from(ahs, i as int) {
                Ok(rest) => Ok::<_, StructureError>(ans.deep_view() + rest),
                Err(e) => Err(e),
            }),
        decreases ans_htmls.len() - i,
    {
        proof {
            assert(ahs[i as int] == ans_htmls[i as int].deep_view());
        }
        let a: &String = &ans_htmls[i];
        let flag_opt = root_attr(a.as_str(), "data-correct");
        match flag_opt {
            Option::None => {
                proof {
                    assert(root_attr_of(ahs[i as int], "data-correct"@) is None);
                    assert(answer_parse(ahs[i as int]) == Err::<(bool, Seq<char>), _>(
                        StructureError::AnswerFlagMissing,
                    ));
                }
                return Err(StructureError::AnswerFlagMissing);
            },
            Option::Some(flag) => {
                proof {
                    assert(root_attr_of(ahs[i as int], "data-correct"@) == Some(flag@));
                }
                let texts = select_texts(a.as_str(), sel_answer_text_str());
                if texts.len() == 0 {
                    proof {
                        assert(selected_texts(ahs[i as int], sel_answer_text()).len() == 0);
                        assert(answer_parse(ahs[i as int]) == Err::<(bool, Seq<char>), _>(
                            StructureError::AnswerTextMissing,
                        ));
                    }
                    return Err(StructureError::AnswerTextMissing);
                }
                let correct = str_eq(flag.as_str(), "True");
                let t: String = texts[0].clone();
                proof {
                    assert(texts.deep_view()[0] == texts[0int].deep_view());
                    assert(answer_parse(ahs[i as int]) == Ok::<_, StructureError>(
                        (correct, t@),
                    ));
                }
                let ghost before = ans.deep_view();
                ans.push((correct, t));
                proof {
                    assert(ans.deep_view() =~= before + seq![(correct, t@)]);
                    match answers_parse_from(ahs, i + 1) {
                        Ok(rest) => {
                            assert(before + (seq![(correct, t@)] + rest) =~= ans.deep_view()
                                + rest);
                        },
                        Err(e) => {},
                    }
                }
                i = i + 1;
            },
        }
    }
    proof {
        assert(answers_parse_from(ahs, i as int) == Ok::<_, StructureError>(
            Seq::<(bool, Seq<char>)>::empty(),
        ));
        assert(ans.deep_view() + Seq::<(bool, Seq<char>)>::empty() =~= ans.deep_view());
        assert(answers_parse(ahs) == Ok::<_, StructureError>(ans.deep_view()));
    }
    let ghost av = ans.deep_view();
    let qt: &String = &qts[0];
    proof {
        assert(qts.deep_view()[0] == qts[0int].deep_view());
    }
    let texts = text_parts(qt.as_str());
    let dates = select_texts(qt.as_str(), sel_date_str());
    let codes = select_texts(qt.as_str(), sel_code_str());
    if texts.len() == 0 {
        return Err(StructureError::PromptMissing);
    }
    if dates.len() == 0 {
        return Err(StructureError::DateMissing);
    }
    if codes.len() == 0 {
        return Err(StructureError::CodeMissing);
    }
    if ans.len() == 0 {
        return Err(StructureError::AnswersMissing);
    }
    let media: QuestionMedia;
    let vids = select_links(b, sel_video_str(), "src");
    if vids.len() > 0 {
        proof {
            assert(vids.deep_view()[0] == vids[0int].deep_view());
        }
        match &vids[0].0 {
            Option::None => {
                return Err(StructureError::VideoSrcMissing);
            },
            Option::Some(u) => {
                media = QuestionMedia::Video(u.clone());
            },
        }
    } else {
        let imgs = select_links(b, sel_image_str(), "src");
        if imgs.len() > 0 {
            proof {
                assert(imgs.deep_view()[0] == imgs[0int].deep_view());
            }
            match &imgs[0].0 {
                Option::None => {
                    return Err(StructureError::ImageSrcMissing);
                },
                Option::Some(u) => {
                    media = QuestionMedia::Image(u.clone());
                },
            }
        } else {
            media = QuestionMedia::NoMedia;
        }
    }
    proof {
        assert(media_parse_block(b@) == Ok::<_, StructureError>(media@));
    }
    let n = ans.len();
    let k = find_right_index(&ans);
    let ghost ws = av.remove(right_index(av));
    proof {
        av.remove_ensures(k as int);
        assert(texts.deep_view()[texts.deep_view().len() - 1] == texts@[texts@.len()
            - 1].deep_view());
    }
    let last_idx = texts.len() - 1;
    let prompt = normalize_text(texts[last_idx].as_str());
    proof {
        assert(av[k as int].1 == ans[k as int].deep_view().1);
    }
    let right = normalize_text(ans[k].1.as_str());
    let first_wrong: Option<String> = if n >= 2 {
        let idx: usize = if k == 0 {
            1
        } else {
            0
        };
        proof {
            assert(av[idx as int].1 == ans[idx as int].deep_view().1);
            assert(ws[0] == av[idx as int]);
        }
        Some(normalize_text(ans[idx].1.as_str()))
    } else {
        None
    };
    let second_wrong: Option<String> = if n >= 3 {
        let idx2: usize = if k <= 1 {
            2
        } else {
            1
        };
        proof {
            assert(av[idx2 as int].1 == ans[idx2 as int].deep_view().1);
            assert(ws[1] == av[idx2 as int]);
        }
        Some(normalize_text(ans[idx2].1.as_str()))
    } else {
        None
    };
    let cc = find_correct_count(&ans);
    let q = Question {
        code: codes[0].clone(),
        change_date: dates[0].clone(),
        question: prompt,
        media,
        right_answer: right,
        first_wrong_answer: first_wrong,
        second_wrong_answer: second_wrong,
    };
    proof {
        assert(codes.deep_view()[0] == codes[0int].deep_view());
        assert(dates.deep_view()[0] == dates[0int].deep_view());
        assert(block_parse(b@) =~= BlockOutcome::Good(q@, cc > 1));
    }
    Ok((q, cc > 1))
}

/// Extract every question block of one page, in page order. Fails with
/// the first structural failure of the first failing block.
pub fn extract(page: &str) -> (r: Result<PageExtract, StructureError>)
    ensures
        match r {
            Ok(pe) => page_parse(page@) == Ok::<_, StructureError>(
                (pe.questions.deep_view(), pe.multiple_correct),
            ),
            Err(e) => page_parse(page@) == Err::<(Seq<QuestionV>, bool), _>(e),
        },
{
    let blocks = select_outer(page, sel_question_str());
    let ghost bs = blocks.deep_view();
    let mut questions: Vec<Question> = Vec::new();
    let mut multi = false;
    let mut i: usize = 0;
    #[verifier::loop_isolation(false)]
    while i < blocks.len()
        invariant
            bs == blocks.deep_view(),
            bs == selected_outer(page@, sel_question()),
            i <= blocks.len() == bs.len(),
            questions.deep_view().len() == i,
            page_parse(page@) == (match page_parse_from(bs, i as int) {
                Ok(rest) => Ok::<_, StructureError>(
                    (questions.deep_view() + rest.0, multi || rest.1),
                ),
                Err(e) => Err(e),
            }),
        decreases blocks.len() - i,
    {
        proof {
            assert(bs[i as int] == blocks[i as int].deep_view());
        }
        match parse_block(blocks[i].as_str()) {
            Err(e) => {
                return Err(e);
            },
            Ok((q, m)) => {
                let ghost before = questions.deep_view();
                let ghost mbefore = multi;
                questions.push(q);
                if m {
                    multi = true;
                }
                proof {
                    assert(questions.deep_view() =~= before + seq![q@]);
                    match page_parse_from(bs, i + 1) {
                        Ok(rest) => {
                            assert(before + (seq![q@] + rest.0) =~= questions.deep_view()
                                + rest.0);
                            assert((mbefore || (m || rest.1)) == (multi || rest.1));
                        },
                        Err(e) => {},
                    }
                }
                i = i + 1;
            },
        }
    }
    proof {
        assert(page_parse_from(bs, i as int) == Ok::<_, StructureError>(
            (Seq::<QuestionV>::empty(), false),
        ));
        assert(questions.deep_view() + Seq::<QuestionV>::empty() =~= questions.deep_view());
        assert((multi || false) == multi);
    }
    Ok(PageExtract { questions, multiple_correct: multi })
}

proof fn lemma_right_index_first(ans: Seq<(bool, Seq<char>)>, i: int, k: int)
    requires
        0 <= i <= k < ans.len(),
        ans[k].0,
        forall|j: int| i <= j < k ==> !ans[j].0,
    ensures
        right_index_from(ans, i) == k,
    decreases k - i,
{
    if i < k {
        lemma_right_index_first(ans, i + 1, k);
    }
}

proof fn lemma_count_correct_single(ans: Seq<(bool, Seq<char>)>, i: int, k: int)
    requires
        0 <= k < ans.len(),
        ans[k].0,
        forall|j: int| 0 <= j < ans.len() && j != k ==> !ans[j].0,
        0 <= i <= ans.len(),
    ensures
        count_correct_from(ans, i) == if i <= k {
            1int
        } else {
            0int
        },
    decreases ans.len() - i,
{
    if i < ans.len() {
        lemma_count_correct_single(ans, i + 1, k);
    }
}

/// A block whose three answers carry exactly one correct mark yields a
/// record with the correct answer's text as `right_answer` and both
/// wrong-answer fields filled, the two wrong answers keeping their
/// original relative order; the multiple-correct flag stays clear.
pub proof fn lemma_one_correct_of_three(b: Seq<char>, ans: Seq<(bool, Seq<char>)>, k: int)
    requires
        answers_parse(selected_outer(b, sel_answer())) == Ok::<_, StructureError>(ans),
        ans.len() == 3,
        0 <= k < 3,
        ans[k].0,
        forall|j: int| 0 <= j < 3 && j != k ==> !ans[j].0,
    ensures
        block_parse(b) matches BlockOutcome::Good(q, multi) ==> {
            &&& q.right_answer == norm_seq(ans[k].1)
            &&& q.first_wrong_answer == Some(norm_seq(ans.remove(k)[0].1))
            &&& q.second_wrong_answer == Some(norm_seq(ans.remove(k)[1].1))
            &&& !multi
        },
{
    lemma_right_index_first(ans, 0, k);
    lemma_count_correct_single(ans, 0, k);
    ans.remove_ensures(k);
}

/// A block with a single answer, marked correct, yields a record whose
/// wrong-answer fields are both absent.
pub proof fn lemma_single_answer(b: Seq<char>, ans: Seq<(bool, Seq<char>)>)
    requires
        answers_parse(selected_outer(b, sel_answer())) == Ok::<_, StructureError>(ans),
        ans.len() == 1,
        ans[0].0,
    ensures
        block_parse(b) matches BlockOutcome::Good(q, multi) ==> {
            &&& q.right_answer == norm_seq(ans[0].1)
            &&& q.first_wrong_answer is None
            &&& q.second_wrong_answer is None
            &&& !multi
        },
{
    lemma_count_correct_single(ans, 0, 0);
    ans.remove_ensures(0);
}

/// A block with a video source yields the video variant carrying that
/// exact URL, whether or not an image is also present.
pub proof fn lemma_video_wins(b: Seq<char>, u: Seq<char>)
    requires
        selected_links(b, sel_video(), "src"@).len() > 0,
        selected_links(b, sel_video(), "src"@)[0].0 == Some(u),
    ensures
        block_parse(b) matches BlockOutcome::Good(q, multi) ==> q.media == MediaV::Video(u),
{
}

/// A block without a video but with an image yields the image variant
/// carrying that exact URL.
pub proof fn lemma_image_media(b: Seq<char>, u: Seq<char>)
    requires
        selected_links(b, sel_video(), "src"@).len() == 0,
        selected_links(b, sel_image(), "src"@).len() > 0,
        selected_links(b, sel_image(), "src"@)[0].0 == Some(u),
    ensures
        block_parse(b) matches BlockOutcome::Good(q, multi) ==> q.media == MediaV::Image(u),
{
}

/// A block with neither a video nor an image yields the none variant.
pub proof fn lemma_no_media(b: Seq<char>)
    requires
        selected_links(b, sel_video(), "src"@).len() == 0,
        selected_links(b, sel_image(), "src"@).len() == 0,
    ensures
        block_parse(b) matches BlockOutcome::Good(q, multi) ==> q.media == MediaV::NoMedia,
{
}

} // verus!
