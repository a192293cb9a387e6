use examscrape::crawl::crawl;
use examscrape::PAGE_LIMIT;

fn page_with_one_question(code: &str) -> String {
    format!(
        "<div class=\"QuestionPanel\"><div class=\"QuestionText\">Question \
         <span class=\"QuestionCode\">{}</span> \
         <span class=\"QuestionChangeDate\">1.1.2020</span>Prompt</div>\
         <div class=\"AnswersPanel\"><div class=\"Answer\" data-correct=\"True\">\
         <div class=\"AnswerText\"><a href=\"#\">Yes</a></div></div></div></div>",
        code
    )
}

#[test]
fn clean_end_counts_batches() {
    let bodies = vec![
        page_with_one_question("A"),
        page_with_one_question("B"),
        String::new(),
    ];
    let report = crawl(&bodies).expect("crawl should succeed");
    assert_eq!(report.batches.len(), 2);
    assert_eq!(report.pages_consumed, 2);
    assert!(!report.limit_hit);
    assert_eq!(report.batches[0][0].code, "A");
    assert_eq!(report.batches[1][0].code, "B");
}

#[test]
fn whitespace_body_ends_cleanly() {
    let bodies = vec![page_with_one_question("A"), "  \n\t  ".to_string()];
    let report = crawl(&bodies).expect("crawl should succeed");
    assert_eq!(report.batches.len(), 1);
    assert!(!report.limit_hit);
}

#[test]
fn exhausted_bodies_end_cleanly() {
    let bodies = vec![page_with_one_question("A")];
    let report = crawl(&bodies).expect("crawl should succeed");
    assert_eq!(report.batches.len(), 1);
    assert_eq!(report.pages_consumed, 1);
    assert!(!report.limit_hit);
}

#[test]
fn no_pages_at_all() {
    let bodies: Vec<String> = Vec::new();
    let report = crawl(&bodies).expect("crawl should succeed");
    assert_eq!(report.batches.len(), 0);
    assert_eq!(report.pages_consumed, 0);
    assert!(!report.limit_hit);
    assert_eq!(report.archive, "");
}

#[test]
fn never_empty_hits_the_limit() {
    let mut bodies = Vec::new();
    for i in 0..(PAGE_LIMIT + 50) {
        bodies.push(page_with_one_question(&format!("C{}", i)));
    }
    let report = crawl(&bodies).expect("crawl should succeed");
    assert!(report.limit_hit);
    assert_eq!(report.pages_consumed, PAGE_LIMIT - 1);
    assert_eq!(report.batches.len(), PAGE_LIMIT - 1);
}

#[test]
fn archive_carries_page_markers() {
    let body = page_with_one_question("A");
    let bodies = vec![body.clone(), String::new()];
    let report = crawl(&bodies).expect("crawl should succeed");
    let expected = format!("<!-- Page 1 -->\n{}\n", body);
    assert_eq!(report.archive, expected);
}

#[test]
fn archive_keeps_fetch_order() {
    let b1 = page_with_one_question("A");
    let b2 = page_with_one_question("B");
    let bodies = vec![b1.clone(), b2.clone(), String::new()];
    let report = crawl(&bodies).expect("crawl should succeed");
    let expected = format!("<!-- Page 1 -->\n{}\n<!-- Page 2 -->\n{}\n", b1, b2);
    assert_eq!(report.archive, expected);
}

#[test]
fn structural_failure_aborts_the_crawl() {
    let bad = "<div class=\"QuestionPanel\"><div class=\"AnswersPanel\"></div></div>";
    let bodies = vec![page_with_one_question("A"), bad.to_string(), String::new()];
    let result = crawl(&bodies);
    assert_eq!(result.unwrap_err(), examscrape::question::StructureError::QuestionTextMissing);
}

#[test]
fn multiple_correct_is_reported_by_the_crawl() {
    let body = "<div class=\"QuestionPanel\"><div class=\"QuestionText\">Q \
                <span class=\"QuestionCode\">1</span> \
                <span class=\"QuestionChangeDate\">1.1.2020</span>P</div>\
                <div class=\"AnswersPanel\">\
                <div class=\"Answer\" data-correct=\"True\"><div class=\"AnswerText\"><a href=\"#\">A</a></div></div>\
                <div class=\"Answer\" data-correct=\"True\"><div class=\"AnswerText\"><a href=\"#\">B</a></div></div>\
                </div></div>";
    let bodies = vec![body.to_string(), String::new()];
    let report = crawl(&bodies).expect("crawl should succeed");
    assert!(report.multiple_correct);
}
