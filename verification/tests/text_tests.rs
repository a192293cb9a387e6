use examscrape::text::{is_blank, normalize_text, truncate};

#[test]
fn normalization_replaces_newlines_and_trims() {
    assert_eq!(normalize_text("  Sample?\nMore  "), "Sample? More");
    assert_eq!(normalize_text("a\n\nb"), "a  b");
    assert_eq!(normalize_text("\n\n"), "");
    assert_eq!(normalize_text(""), "");
    assert_eq!(normalize_text("plain"), "plain");
}

#[test]
fn normalization_is_idempotent_on_samples() {
    let samples = vec!["  a\nb ", "already normal", "\t x \n", "", "č\nž"];
    for s in samples {
        let once = normalize_text(s);
        let twice = normalize_text(&once);
        assert_eq!(once, twice);
    }
}

#[test]
fn blankness_means_nothing_but_whitespace() {
    assert!(is_blank(""));
    assert!(is_blank("  \n\t\r  "));
    assert!(!is_blank(" x "));
}

#[test]
fn truncation_counts_characters_not_bytes() {
    assert_eq!(truncate("short", 30), "short");
    assert_eq!(truncate(&"x".repeat(30), 30), "x".repeat(30));
    assert_eq!(truncate(&"x".repeat(31), 30), "x".repeat(30));
    let long = "č".repeat(35);
    assert_eq!(truncate(&long, 30), "č".repeat(30));
}
