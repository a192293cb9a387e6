use examscrape::extract::extract;
use examscrape::question::{Question, QuestionMedia, StructureError};

fn block(question_text: &str, answers: &str, media: &str) -> String {
    format!(
        "<div class=\"QuestionPanel\">{}<div class=\"AnswersPanel\">{}</div>{}</div>",
        question_text, answers, media
    )
}

fn qtext(code: &str, date: &str, prompt: &str) -> String {
    format!(
        "<div class=\"QuestionText\">Question <span class=\"QuestionCode\">{}</span> \
         <span class=\"QuestionChangeDate\">{}</span>{}</div>",
        code, date, prompt
    )
}

fn answer(correct: bool, text: &str) -> String {
    format!(
        "<div class=\"Answer\" data-correct=\"{}\"><div class=\"AnswerText\"><a href=\"#\">{}</a></div></div>",
        if correct { "True" } else { "False" },
        text
    )
}

#[test]
fn end_to_end_example() {
    let answers = format!("{}{}{}", answer(true, "Yes"), answer(false, "No"), answer(false, "Maybe"));
    let page = block(&qtext("12A1001", "1.1.2020", "Sample?\nMore"), &answers, "");
    let out = extract(&page).expect("page should extract");
    assert_eq!(out.questions.len(), 1);
    assert!(!out.multiple_correct);
    let expected = Question {
        code: "12A1001".to_string(),
        change_date: "1.1.2020".to_string(),
        question: "Sample? More".to_string(),
        media: QuestionMedia::NoMedia,
        right_answer: "Yes".to_string(),
        first_wrong_answer: Some("No".to_string()),
        second_wrong_answer: Some("Maybe".to_string()),
    };
    assert_eq!(out.questions[0], expected);
}

#[test]
fn one_correct_of_three_keeps_wrong_order() {
    let answers = format!("{}{}{}", answer(false, "No"), answer(true, "Yes"), answer(false, "Maybe"));
    let page = block(&qtext("1", "2.2.2021", "Q"), &answers, "");
    let out = extract(&page).expect("page should extract");
    let q = &out.questions[0];
    assert_eq!(q.right_answer, "Yes");
    assert_eq!(q.first_wrong_answer.as_deref(), Some("No"));
    assert_eq!(q.second_wrong_answer.as_deref(), Some("Maybe"));
    assert!(!out.multiple_correct);
}

#[test]
fn single_answer_has_no_wrong_fields() {
    let answers = answer(true, "Only");
    let page = block(&qtext("1", "1.1.2020", "Q"), &answers, "");
    let out = extract(&page).expect("page should extract");
    let q = &out.questions[0];
    assert_eq!(q.right_answer, "Only");
    assert_eq!(q.first_wrong_answer, None);
    assert_eq!(q.second_wrong_answer, None);
}

#[test]
fn video_wins_over_image() {
    let media = "<div class=\"QuestionImagePanel\"><video><source src=\"clip.mp4\"></source></video><img src=\"pic.png\"></div>";
    let page = block(&qtext("1", "1.1.2020", "Q"), &answer(true, "A"), media);
    let out = extract(&page).expect("page should extract");
    assert_eq!(out.questions[0].media, QuestionMedia::Video("clip.mp4".to_string()));
}

#[test]
fn image_only_gives_image() {
    let media = "<div class=\"QuestionImagePanel\"><img src=\"pic.png\"></div>";
    let page = block(&qtext("1", "1.1.2020", "Q"), &answer(true, "A"), media);
    let out = extract(&page).expect("page should extract");
    assert_eq!(out.questions[0].media, QuestionMedia::Image("pic.png".to_string()));
}

#[test]
fn no_media_gives_none() {
    let page = block(&qtext("1", "1.1.2020", "Q"), &answer(true, "A"), "");
    let out = extract(&page).expect("page should extract");
    assert_eq!(out.questions[0].media, QuestionMedia::NoMedia);
}

#[test]
fn answers_are_normalized() {
    let answers = format!("{}{}", answer(true, "  Right\nanswer "), answer(false, " Wrong\none "));
    let page = block(&qtext("1", "1.1.2020", "  P\nQ  "), &answers, "");
    let out = extract(&page).expect("page should extract");
    let q = &out.questions[0];
    assert_eq!(q.question, "P Q");
    assert_eq!(q.right_answer, "Right answer");
    assert_eq!(q.first_wrong_answer.as_deref(), Some("Wrong one"));
}

#[test]
fn multiple_correct_is_flagged_first_wins() {
    let answers = format!("{}{}{}", answer(true, "First"), answer(true, "Second"), answer(false, "Third"));
    let page = block(&qtext("1", "1.1.2020", "Q"), &answers, "");
    let out = extract(&page).expect("page should extract");
    assert!(out.multiple_correct);
    let q = &out.questions[0];
    assert_eq!(q.right_answer, "First");
    assert_eq!(q.first_wrong_answer.as_deref(), Some("Second"));
    assert_eq!(q.second_wrong_answer.as_deref(), Some("Third"));
}

#[test]
fn no_correct_answer_takes_first() {
    let answers = format!("{}{}", answer(false, "A"), answer(false, "B"));
    let page = block(&qtext("1", "1.1.2020", "Q"), &answers, "");
    let out = extract(&page).expect("page should extract");
    let q = &out.questions[0];
    assert_eq!(q.right_answer, "A");
    assert_eq!(q.first_wrong_answer.as_deref(), Some("B"));
    assert_eq!(q.second_wrong_answer, None);
    assert!(!out.multiple_correct);
}

#[test]
fn two_blocks_in_page_order() {
    let b1 = block(&qtext("A1", "1.1.2020", "First"), &answer(true, "x"), "");
    let b2 = block(&qtext("B2", "2.1.2020", "Second"), &answer(true, "y"), "");
    let page = format!("{}{}", b1, b2);
    let out = extract(&page).expect("page should extract");
    assert_eq!(out.questions.len(), 2);
    assert_eq!(out.questions[0].code, "A1");
    assert_eq!(out.questions[1].code, "B2");
}

#[test]
fn page_without_blocks_is_empty() {
    let out = extract("<p>nothing here</p>").expect("page should extract");
    assert_eq!(out.questions.len(), 0);
    assert!(!out.multiple_correct);
}

#[test]
fn missing_question_text_fails() {
    let page = "<div class=\"QuestionPanel\"><div class=\"AnswersPanel\"></div></div>";
    assert_eq!(extract(page), Err(StructureError::QuestionTextMissing));
}

#[test]
fn missing_date_fails() {
    let qt = "<div class=\"QuestionText\"><span class=\"QuestionCode\">1</span>Prompt</div>";
    let page = block(qt, &answer(true, "A"), "");
    assert_eq!(extract(&page), Err(StructureError::DateMissing));
}

#[test]
fn missing_code_fails() {
    let qt = "<div class=\"QuestionText\"><span class=\"QuestionChangeDate\">1.1.2020</span>Prompt</div>";
    let page = block(qt, &answer(true, "A"), "");
    assert_eq!(extract(&page), Err(StructureError::CodeMissing));
}

#[test]
fn empty_question_text_fails_for_prompt() {
    let qt = "<div class=\"QuestionText\"></div>";
    let page = block(qt, &answer(true, "A"), "");
    assert_eq!(extract(&page), Err(StructureError::PromptMissing));
}

#[test]
fn no_answers_fails() {
    let page = block(&qtext("1", "1.1.2020", "Q"), "", "");
    assert_eq!(extract(&page), Err(StructureError::AnswersMissing));
}

#[test]
fn answer_without_flag_fails() {
    let bad = "<div class=\"Answer\"><div class=\"AnswerText\"><a href=\"#\">A</a></div></div>";
    let page = block(&qtext("1", "1.1.2020", "Q"), bad, "");
    assert_eq!(extract(&page), Err(StructureError::AnswerFlagMissing));
}

#[test]
fn answer_without_text_fails() {
    let bad = "<div class=\"Answer\" data-correct=\"True\"></div>";
    let page = block(&qtext("1", "1.1.2020", "Q"), bad, "");
    assert_eq!(extract(&page), Err(StructureError::AnswerTextMissing));
}

#[test]
fn video_without_source_url_fails() {
    let media = "<div class=\"QuestionImagePanel\"><video><source></source></video></div>";
    let page = block(&qtext("1", "1.1.2020", "Q"), &answer(true, "A"), media);
    assert_eq!(extract(&page), Err(StructureError::VideoSrcMissing));
}

#[test]
fn errors_describe_themselves() {
    assert_eq!(StructureError::DateMissing.describe(), "question change date missing");
    assert_eq!(StructureError::AnswersMissing.describe(), "question has no answers");
}

#[test]
fn image_without_source_url_fails() {
    let media = "<div class=\"QuestionImagePanel\"><img></div>";
    let page = block(&qtext("1", "1.1.2020", "Q"), &answer(true, "A"), media);
    assert_eq!(extract(&page), Err(StructureError::ImageSrcMissing));
}
