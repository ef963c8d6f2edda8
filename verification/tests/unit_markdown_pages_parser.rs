use chasqui::markdown::{
    compile_markdown_to_html, extract_frontmatter, frontmatter_from_entries,
    resolve_destinations, split_frontmatter, YamlValue,
};

#[test]
fn test_extract_frontmatter_valid() {
    let input = "---\nidentifier: test-id\ntags:\n  - rust\n  - tests\n---\n# Hello World";
    let (fm, body) = extract_frontmatter(input, "test.md");

    assert_eq!(fm.identifier, Some("test-id".to_string()));
    assert_eq!(fm.tags, Some(vec!["rust".to_string(), "tests".to_string()]));
    assert_eq!(body.trim(), "# Hello World");
}

#[test]
fn test_extract_frontmatter_no_fm() {
    let input = "# Just Content";
    let (fm, body) = extract_frontmatter(input, "test.md");

    assert!(fm.identifier.is_none());
    assert_eq!(body.trim(), "# Just Content");
}

#[test]
fn test_compile_markdown_basic() {
    let input = "# Title\nThis is a [link](test.md)";

    let result = compile_markdown_to_html(input, |link: &str| link.to_string());

    assert!(result.contains("<h1>Title</h1>"));
    assert!(result.contains(r#"<a href="test.md">link</a>"#));
}

#[test]
fn test_compile_markdown_with_resolver() {
    let markdown_with_link = "Check out [my post](post.md)";

    let result = compile_markdown_to_html(markdown_with_link, |link: &str| {
        if link.ends_with(".md") {
            format!("/{}", link.replace(".md", ""))
        } else {
            link.to_string()
        }
    });

    assert!(result.contains(r#"<a href="/post">my post</a>"#));
}

#[test]
fn test_extract_frontmatter_malformed_fields() {
    let broken_tags_md = "---\ntags: ['broken!]\n---\nhello world!";
    let (fm, body) = extract_frontmatter(broken_tags_md, "test.md");

    assert!(fm.tags.is_none());
    assert_eq!(body.trim(), "hello world!");
}

#[test]
fn test_parsing_malformed_frontmatter() {
    // unclosed front matter: everything is body
    let unclosed_frontmatter_md = "---\nunfinished frontmatter";
    let (fm, body) = extract_frontmatter(unclosed_frontmatter_md, "test.md");
    assert!(fm.identifier.is_none());
    assert_eq!(body, unclosed_frontmatter_md);

    // gibberish between the fences
    let expected_body = "Hello world!";
    let gibberish_frontmatter_md = format!("---\n::br()k=n y@ml: :;;\n---\n{}", &expected_body);
    let (fm, body) = extract_frontmatter(&gibberish_frontmatter_md, "test.md");
    assert!(fm.identifier.is_none());
    assert_eq!(body.trim(), expected_body);

    // nothing between the fences
    let empty_frontmatter_md = format!("---\n---\n{}", &expected_body);
    let (fm, body) = extract_frontmatter(&empty_frontmatter_md, "test.md");
    assert!(fm.identifier.is_none());
    assert_eq!(body.trim(), expected_body);

    // one mebibyte between the fences
    let huge_content = "a".repeat(1024 * 1024);
    let huge_frontmatter_md = format!("---\n{}\n---\n{}", huge_content, &expected_body);
    let (fm, body) = extract_frontmatter(&huge_frontmatter_md, "test.md");
    assert!(fm.identifier.is_none());
    assert_eq!(body.trim(), expected_body);
}

#[test]
fn frontmatter_reads_every_field_of_the_schema() {
    let input = "---\nidentifier: home\nname: Home page\ntags: [a, b]\nmodified_datetime: 2024-05-06\ncreated_datetime: \"2024-01-02T03:04:05Z\"\nextra: ignored\n---\n\n  body";
    let (fm, body) = extract_frontmatter(input, "index.md");
    assert_eq!(fm.identifier, Some("home".to_string()));
    assert_eq!(fm.name, Some("Home page".to_string()));
    assert_eq!(fm.tags, Some(vec!["a".to_string(), "b".to_string()]));
    assert_eq!(fm.modified_datetime, Some("2024-05-06".to_string()));
    assert_eq!(fm.created_datetime, Some("2024-01-02T03:04:05Z".to_string()));
    assert_eq!(body, "body");
}

#[test]
fn frontmatter_with_a_mistyped_field_is_dropped_whole() {
    // the identifier is a number, so nothing of the front matter is kept
    let (fm, body) = extract_frontmatter("---\nidentifier: 5\nname: kept?\n---\ntext", "a.md");
    assert!(fm.identifier.is_none());
    assert!(fm.name.is_none());
    assert_eq!(body, "text");

    // a list with an item that is no text
    let (fm, _) = extract_frontmatter("---\nname: n\ntags: [a, 1]\n---\ntext", "a.md");
    assert!(fm.tags.is_none());
    assert!(fm.name.is_none());

    // a text where a list belongs
    let (fm, _) = extract_frontmatter("---\ntags: plain\n---\ntext", "a.md");
    assert!(fm.tags.is_none());

    // null stands for absent and spoils nothing
    let (fm, _) = extract_frontmatter("---\nname: n\ntags: ~\nidentifier: null\n---\ntext", "a.md");
    assert_eq!(fm.name, Some("n".to_string()));
    assert!(fm.tags.is_none());
    assert!(fm.identifier.is_none());
}

#[test]
fn frontmatter_without_body_leaves_an_empty_body() {
    let (fm, body) = extract_frontmatter("---\nidentifier: lone\n---", "lone.md");
    assert_eq!(fm.identifier, Some("lone".to_string()));
    assert_eq!(body, "");
    let html = compile_markdown_to_html(&body, |link: &str| link.to_string());
    assert_eq!(html, "");

    let (_, body) = extract_frontmatter("---\nidentifier: lone\n---\n \t\n", "lone.md");
    assert_eq!(body, "");
}

#[test]
fn fence_rule_follows_the_first_two_fences() {
    // text that does not start with a fence is all body, even with fences later
    let text = "intro\n---\nidentifier: x\n---\nrest";
    let (fm, body) = extract_frontmatter(text, "a.md");
    assert!(fm.identifier.is_none());
    assert_eq!(body, text);

    // the body starts right after the second fence and loses leading white space only
    let (fm, body) = extract_frontmatter("---\nidentifier: x\n---\n\n  first\nsecond  \n", "a.md");
    assert_eq!(fm.identifier, Some("x".to_string()));
    assert_eq!(body, "first\nsecond  \n");

    // a third fence belongs to the body
    let (_, body) = extract_frontmatter("---\nname: n\n---\none\n---\ntwo", "a.md");
    assert_eq!(body, "one\n---\ntwo");

    // three dashes alone are no front matter
    let (fm, body) = extract_frontmatter("---", "a.md");
    assert!(fm.name.is_none());
    assert_eq!(body, "---");
}

#[test]
fn compile_asks_the_resolver_once_per_link_in_order() {
    let seen = std::cell::RefCell::new(Vec::new());
    let html = compile_markdown_to_html(
        "[one](a.md) and ![image](pic.png) and [two](b.md#part) then <https://example.org>",
        |link: &str| {
            seen.borrow_mut().push(link.to_string());
            format!("/seen/{}", link)
        },
    );
    assert_eq!(
        *seen.borrow(),
        vec!["a.md".to_string(), "b.md#part".to_string(), "https://example.org".to_string()]
    );
    assert!(html.contains(r#"<a href="/seen/a.md">one</a>"#));
    assert!(html.contains(r#"<a href="/seen/b.md#part">two</a>"#));
    // images are no links and keep their source
    assert!(html.contains(r#"src="pic.png""#));
}

#[test]
fn compile_renders_tables_and_strikethrough() {
    let html = compile_markdown_to_html("~~gone~~\n\n| a | b |\n|---|---|\n| 1 | 2 |\n", |l: &str| {
        l.to_string()
    });
    assert!(html.contains("<del>gone</del>"));
    assert!(html.contains("<table>"));
    assert!(html.contains("<td>1</td>"));
}

#[test]
fn split_gives_the_span_between_the_fences_and_the_body() {
    assert_eq!(
        split_frontmatter("---\nname: n\n---\n\nbody"),
        (Some("\nname: n\n".to_string()), "body".to_string())
    );
    assert_eq!(split_frontmatter("plain"), (None, "plain".to_string()));
    assert_eq!(split_frontmatter("---\nopen"), (None, "---\nopen".to_string()));
    assert_eq!(split_frontmatter("------"), (Some(String::new()), String::new()));
    assert_eq!(
        split_frontmatter("---a---\u{a0}\u{3000} z "),
        (Some("a".to_string()), "z ".to_string())
    );
    assert_eq!(split_frontmatter(""), (None, String::new()));
}

#[test]
fn span_between_the_fences_is_read_as_yaml_wherever_the_fences_stand() {
    // the closing fence inside a line
    let (fm, body) = extract_frontmatter("---\nidentifier: x\nname: n ---rest", "a.md");
    assert_eq!(fm.identifier, Some("x".to_string()));
    assert_eq!(fm.name, Some("n".to_string()));
    assert_eq!(body, "rest");

    // both fences on one line
    let (fm, body) = extract_frontmatter("--- identifier: one ---\nbody", "a.md");
    assert_eq!(fm.identifier, Some("one".to_string()));
    assert_eq!(body, "body");

    // an indented table
    let (fm, _) = extract_frontmatter("---\n  identifier: x\n  tags: [a]\n---\nbody", "a.md");
    assert_eq!(fm.identifier, Some("x".to_string()));
    assert_eq!(fm.tags, Some(vec!["a".to_string()]));

    // a document that is no table holds nothing
    let (fm, body) = extract_frontmatter("---\n- a\n- b\n---\nbody", "a.md");
    assert!(fm.identifier.is_none() && fm.tags.is_none());
    assert_eq!(body, "body");
    let (fm, _) = extract_frontmatter("---\njust words\n---\nbody", "a.md");
    assert!(fm.identifier.is_none() && fm.name.is_none());
}

#[test]
fn schema_reads_entries_by_type() {
    let fm = frontmatter_from_entries(
        Some(YamlValue::Text("id".to_string())),
        None,
        Some(YamlValue::List(vec![Some("a".to_string()), Some("b".to_string())])),
        Some(YamlValue::Null),
        Some(YamlValue::Text("2024-01-01".to_string())),
    )
    .unwrap();
    assert_eq!(fm.identifier, Some("id".to_string()));
    assert_eq!(fm.name, None);
    assert_eq!(fm.tags, Some(vec!["a".to_string(), "b".to_string()]));
    assert_eq!(fm.modified_datetime, None);
    assert_eq!(fm.created_datetime, Some("2024-01-01".to_string()));

    // an empty list is a list
    let fm = frontmatter_from_entries(None, None, Some(YamlValue::List(vec![])), None, None).unwrap();
    assert_eq!(fm.tags, Some(vec![]));

    // one field of the wrong type spoils all
    assert!(frontmatter_from_entries(Some(YamlValue::Other), None, None, None, None).is_none());
    assert!(frontmatter_from_entries(
        None,
        None,
        Some(YamlValue::List(vec![Some("a".to_string()), None])),
        None,
        None
    )
    .is_none());
    assert!(frontmatter_from_entries(None, None, Some(YamlValue::Text("a".into())), None, None)
        .is_none());
    assert!(frontmatter_from_entries(None, Some(YamlValue::List(vec![])), None, None, None)
        .is_none());
    assert!(frontmatter_from_entries(None, None, None, None, None).is_some());
}

#[test]
fn resolver_answers_stand_where_the_links_stood() {
    let events = vec![None, Some("a".to_string()), None, None, Some("b".to_string())];
    let answers = resolve_destinations(&events, &|link: &str| format!("<{}>", link));
    assert_eq!(answers, vec![None, Some("<a>".to_string()), None, None, Some("<b>".to_string())]);
    assert!(resolve_destinations(&vec![], &|link: &str| link.to_string()).is_empty());
}
