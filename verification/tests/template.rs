use pqueue::template::{ArityError, ParseError, Template};

fn words(items: &[&str]) -> Vec<String> {
    items.iter().map(|s| s.to_string()).collect()
}

fn fill(t: &Template, args: &[&str]) -> Result<Vec<String>, ArityError> {
    t.instantiate(&words(args))
}

#[test]
fn test_instantiate() {
    let t: Template = "a b c".parse().unwrap();
    assert_eq!(fill(&t, &[]).unwrap(), vec!["a", "b", "c"]);
    assert!(fill(&t, &["a"]).is_err());

    let t: Template = "a {} c".parse().unwrap();
    assert_eq!(fill(&t, &["b"]).unwrap(), vec!["a", "b", "c"]);
    assert_eq!(
        fill(&t, &["hello world"]).unwrap(),
        vec!["a", "hello world", "c"]
    );
    assert!(fill(&t, &[]).is_err());

    let t: Template = "{} {} {}".parse().unwrap();
    assert_eq!(fill(&t, &["a", "b", "c"]).unwrap(), vec!["a", "b", "c"]);
    assert!(fill(&t, &[]).is_err());

    let t: Template = "{...}".parse().unwrap();
    assert_eq!(fill(&t, &[]).unwrap(), vec![] as Vec<String>);
    assert_eq!(fill(&t, &["a", "b", "c"]).unwrap(), vec!["a", "b", "c"]);

    let t: Template = "a {...}".parse().unwrap();
    assert_eq!(fill(&t, &["b", "c"]).unwrap(), vec!["a", "b", "c"]);
    assert_eq!(fill(&t, &[]).unwrap(), vec!["a"]);

    let t: Template = "{} - {...}".parse().unwrap();
    assert_eq!(
        fill(&t, &["a", "b", "c"]).unwrap(),
        vec!["a", "-", "b", "c"]
    );
    assert!(fill(&t, &[]).is_err());

    let t: Template = "{} - {...} - {} {}".parse().unwrap();
    assert_eq!(
        fill(&t, &["a", "b", "c"]).unwrap(),
        vec!["a", "-", "-", "b", "c"]
    );
    assert_eq!(
        fill(&t, &["a", "b", "c", "d"]).unwrap(),
        vec!["a", "-", "b", "-", "c", "d"]
    );
    assert_eq!(
        fill(&t, &["a", "b", "c", "d", "e"]).unwrap(),
        vec!["a", "-", "b", "c", "-", "d", "e"]
    );
}

#[test]
fn shell_template_expands_to_argv() {
    let t = Template::parse("sh -c {} -- {...}").unwrap();
    assert_eq!(
        fill(&t, &["echo hi", "x", "y"]).unwrap(),
        vec!["sh", "-c", "echo hi", "--", "x", "y"]
    );
}

#[test]
fn arity_errors_name_the_count() {
    let t = Template::parse("a {} {}").unwrap();
    let e = fill(&t, &["x"]).unwrap_err();
    assert_eq!(e, ArityError::Exactly { required: 2 });
    assert_eq!(
        e.message(),
        "wrong number of arguments (2 arguments required)"
    );
    let t = Template::parse("{} {...} {} {}").unwrap();
    let e = fill(&t, &["x", "y"]).unwrap_err();
    assert_eq!(e, ArityError::AtLeast { required: 3 });
    assert_eq!(
        e.message(),
        "wrong number of arguments (at least 3 arguments required)"
    );
    let t = Template::parse("{} {} {} {} {} {} {} {} {} {} {} {}").unwrap();
    assert_eq!(
        fill(&t, &[]).unwrap_err().message(),
        "wrong number of arguments (12 arguments required)"
    );
}

#[test]
fn parse_errors() {
    assert_eq!(
        Template::parse("{...} a {...}").unwrap_err(),
        ParseError::MultipleVarArgs
    );
    assert_eq!(
        ParseError::MultipleVarArgs.message(),
        "template cannot contain multiple variable argument expansions"
    );
    assert_eq!(Template::parse("a 'b").unwrap_err(), ParseError::Split);
    assert_eq!(
        ParseError::Split.message(),
        "failed to split template into arguments"
    );
    assert!("\"".parse::<Template>().is_err());
}

#[test]
fn from_tokens_reads_words_as_they_are() {
    let t = Template::from_tokens(&words(&["a b", "{}", "{...}", "{ }"])).unwrap();
    assert_eq!(
        fill(&t, &["1", "2", "3"]).unwrap(),
        vec!["a b", "1", "2", "3", "{ }"]
    );
    assert!(Template::from_tokens(&words(&["{...}", "{...}"])).is_err());
}

#[test]
fn to_string_quotes_literal_words() {
    let t = Template::parse("sh -c 'echo hi' {} -- {...}").unwrap();
    let text = t.to_string();
    assert_ne!(text, "sh -c echo hi {} -- {...}");
    assert!(text.starts_with("sh -c "));
    assert!(text.ends_with(" {} -- {...}"));
    let words = shlex::split(&text).unwrap();
    assert_eq!(words, vec!["sh", "-c", "echo hi", "{}", "--", "{...}"]);
}

#[test]
fn text_round_trip() {
    for source in [
        "a b c",
        "a {} c",
        "{...}",
        "{} - {...} - {} {}",
        "sh -c 'echo \"hi there\"' {} -- {...}",
        "'' 'it''s' \"a b\"",
        "",
    ] {
        let t = Template::parse(source).unwrap();
        let again = Template::parse(&t.to_string()).unwrap();
        assert_eq!(again, t);
        assert_eq!(again.to_string(), t.to_string());
        for n in 0..6 {
            let args: Vec<String> = (0..n).map(|i| format!("arg {}", i)).collect();
            assert_eq!(again.instantiate(&args), t.instantiate(&args));
        }
    }
}

#[test]
fn output_length_is_statics_plus_arguments() {
    let t = Template::parse("a {} b {...} c {}").unwrap();
    for n in 2..7 {
        let args: Vec<String> = (0..n).map(|i| i.to_string()).collect();
        assert_eq!(t.instantiate(&args).unwrap().len(), 3 + n);
    }
    let t = Template::parse("a {} b {}").unwrap();
    assert_eq!(fill(&t, &["x", "y"]).unwrap().len(), 2 + 2);
}

#[test]
fn templates_compare_by_their_pieces() {
    let a = Template::parse("a {} 'b c' {...}").unwrap();
    let b = Template::parse("a   {}  \"b c\" {...}").unwrap();
    assert_eq!(a, b);
    assert_ne!(a, Template::parse("a {} 'b c'").unwrap());
    assert_ne!(a, Template::parse("a {} 'b d' {...}").unwrap());
    assert_ne!(a, Template::parse("a {...} 'b c' {}").unwrap());
    assert_eq!(Template::parse("").unwrap(), Template::parse("  ").unwrap());
}
