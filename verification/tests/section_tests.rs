use examscrape::question::StructureError;
use examscrape::sections::{list_sections, Section};

fn menu(links: &str) -> String {
    format!(
        "<div id=\"VerticalMenuPanel\"><ul>{}</ul></div>",
        links
    )
}

fn link(href: &str, text: &str) -> String {
    format!("<li><a href=\"{}\">{}</a></li>", href, text)
}

#[test]
fn lists_categories_in_order() {
    let landing = menu(&format!(
        "{}{}",
        link("/Vestnik?basketScope=alpha", "Group A"),
        link("/Vestnik?page=1&basketScope=beta", "Group B"),
    ));
    let secs = list_sections(&landing).expect("landing should list");
    assert_eq!(
        secs,
        vec![
            Section { name: "Group A".to_string(), section_id: "alpha".to_string() },
            Section { name: "Group B".to_string(), section_id: "beta".to_string() },
        ]
    );
}

#[test]
fn no_menu_means_no_categories() {
    let secs = list_sections("<p>welcome</p>").expect("empty listing is fine");
    assert_eq!(secs.len(), 0);
}

#[test]
fn link_without_target_fails() {
    let landing = menu("<li><a>Orphan</a></li>");
    assert_eq!(list_sections(&landing), Err(StructureError::HrefMissing));
}

#[test]
fn link_without_scope_fails() {
    let landing = menu(&link("/Vestnik?page=2", "No scope"));
    assert_eq!(list_sections(&landing), Err(StructureError::ScopeMissing));
}

#[test]
fn unresolvable_target_fails() {
    let landing = menu(&link(":99999999999999999999/x", "Bad port"));
    assert_eq!(list_sections(&landing), Err(StructureError::SectionUrlInvalid));
}

#[test]
fn scope_value_is_percent_decoded() {
    let landing = menu(&link("/Vestnik?basketScope=a%20b", "Spaced"));
    let secs = list_sections(&landing).expect("landing should list");
    assert_eq!(secs[0].section_id, "a b");
}
