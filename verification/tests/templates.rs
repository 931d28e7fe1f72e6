use pqueue::templates::{Template, TemplateError};

fn strings(items: &[&str]) -> Vec<String> {
    items.iter().map(|s| s.to_string()).collect()
}

#[test]
fn test_templates() {
    let slice = strings(&["a", "{}", "c", "{}"]);
    let template: Template = slice.as_slice().into();
    let filled = template.fill(&strings(&["b", "d"]));
    assert!(filled.is_ok());
    assert_eq!(filled.unwrap(), ["a", "b", "c", "d"]);
    assert!(template.fill(&strings(&["b"])).is_err());
}

#[test]
fn placeholders_are_counted() {
    let template = Template::from_words(&strings(&["{}", "x", "{}", "{} ", "{}"]));
    assert_eq!(template.placeholders(), 3);
    assert_eq!(Template::from_words(&[]).placeholders(), 0);
    assert_eq!(
        template.fill(&strings(&["1", "2", "3"])).unwrap(),
        ["1", "x", "2", "{} ", "3"]
    );
    assert_eq!(
        template.fill(&strings(&["1", "2", "3", "4"])).unwrap_err(),
        TemplateError::ArgumentCountMismatch
    );
}
