use examscrape::output::{
    header_row, media_field, media_parse, out_csv_path, out_html_path, question_row,
};
use examscrape::question::{Question, QuestionMedia};
use examscrape::sections::Section;

fn sample_question() -> Question {
    Question {
        code: "12A1001".to_string(),
        change_date: "1.1.2020".to_string(),
        question: "Sample? More".to_string(),
        media: QuestionMedia::NoMedia,
        right_answer: "Yes".to_string(),
        first_wrong_answer: Some("No".to_string()),
        second_wrong_answer: Some("Maybe".to_string()),
    }
}

#[test]
fn media_fields_round_trip() {
    let cases = vec![
        QuestionMedia::NoMedia,
        QuestionMedia::Image("pic.png".to_string()),
        QuestionMedia::Video("clip.mp4".to_string()),
        QuestionMedia::Video(String::new()),
    ];
    for m in cases {
        let field = media_field(&m);
        assert_eq!(media_parse(&field), Some(m));
    }
}

#[test]
fn media_field_encodings() {
    assert_eq!(media_field(&QuestionMedia::NoMedia), "");
    assert_eq!(media_field(&QuestionMedia::Image("a.png".to_string())), "image:a.png");
    assert_eq!(media_field(&QuestionMedia::Video("b.mp4".to_string())), "video:b.mp4");
}

#[test]
fn media_parse_rejects_garbage() {
    assert_eq!(media_parse("audio:x"), None);
    assert_eq!(media_parse("img"), None);
}

#[test]
fn row_has_fixed_column_order() {
    let q = sample_question();
    let row = question_row(&q);
    assert_eq!(
        row,
        vec!["12A1001", "1.1.2020", "Sample? More", "", "Yes", "No", "Maybe"]
    );
}

#[test]
fn row_fills_missing_fields_with_empty() {
    let mut q = sample_question();
    q.media = QuestionMedia::Video("v.mp4".to_string());
    q.first_wrong_answer = None;
    q.second_wrong_answer = None;
    let row = question_row(&q);
    assert_eq!(
        row,
        vec!["12A1001", "1.1.2020", "Sample? More", "video:v.mp4", "Yes", "", ""]
    );
}

#[test]
fn header_names_the_columns() {
    assert_eq!(
        header_row(),
        vec![
            "code",
            "change_date",
            "question",
            "media",
            "right_answer",
            "first_wrong_answer",
            "second_wrong_answer",
        ]
    );
}

#[test]
fn output_paths_use_scope_and_truncated_name() {
    let s = Section { name: "Short".to_string(), section_id: "42".to_string() };
    assert_eq!(out_html_path(&s), "./scrape.42.Short.html");
    assert_eq!(out_csv_path(&s), "./scrape.42.Short.csv");
}

#[test]
fn output_paths_truncate_long_names() {
    let s = Section { name: "x".repeat(45), section_id: "9".to_string() };
    let expected = format!("./scrape.9.{}.csv", "x".repeat(30));
    assert_eq!(out_csv_path(&s), expected);
}
