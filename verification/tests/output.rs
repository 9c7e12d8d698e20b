use wikisearch::render::{build_results, no_results_message, render_json, render_output, render_text};
use wikisearch::urls::{article_url, replace_spaces};

#[test]
fn url_without_spaces_is_identity() {
    assert_eq!(
        article_url("Rust"),
        "https://en.wikipedia.org/wiki/Rust"
    );
    assert_eq!(
        article_url("Ferrocene"),
        "https://en.wikipedia.org/wiki/Ferrocene"
    );
}

#[test]
fn url_substitutes_every_space() {
    assert_eq!(
        article_url("Rust (programming language)"),
        "https://en.wikipedia.org/wiki/Rust_(programming_language)"
    );
    assert_eq!(
        article_url("a b c"),
        "https://en.wikipedia.org/wiki/a_b_c"
    );
}

#[test]
fn space_substitution_is_idempotent() {
    let once = replace_spaces("Rust (programming language)");
    let twice = replace_spaces(&once);
    assert_eq!(once, twice);
    let once = replace_spaces("no-spaces-here");
    let twice = replace_spaces(&once);
    assert_eq!(once, twice);
    let once = replace_spaces("  leading and trailing  ");
    let twice = replace_spaces(&once);
    assert_eq!(once, twice);
}

#[test]
fn build_results_keeps_order_and_derives_urls() {
    let titles = vec![
        String::from("Rust (programming language)"),
        String::from("Systems programming"),
    ];
    let results = build_results(&titles);
    assert_eq!(results.len(), 2);
    assert_eq!(results[0].title, "Rust (programming language)");
    assert_eq!(
        results[0].url,
        "https://en.wikipedia.org/wiki/Rust_(programming_language)"
    );
    assert_eq!(results[1].title, "Systems programming");
    assert_eq!(
        results[1].url,
        "https://en.wikipedia.org/wiki/Systems_programming"
    );
}

#[test]
fn text_output_matches_example() {
    let titles = vec![
        String::from("Rust (programming language)"),
        String::from("Systems programming"),
    ];
    let results = build_results(&titles);
    let out = render_text("Rust programming", &results);
    let expected = "Search results for 'Rust programming':\n \
                    - Rust (programming language): https://en.wikipedia.org/wiki/Rust_(programming_language)\n \
                    - Systems programming: https://en.wikipedia.org/wiki/Systems_programming";
    assert_eq!(out, expected);
}

#[test]
fn text_output_header_and_line_count() {
    let titles = vec![
        String::from("Alpha"),
        String::from("Beta"),
        String::from("Gamma delta"),
    ];
    let results = build_results(&titles);
    let out = render_text("greek letters", &results);
    let lines: Vec<&str> = out.split('\n').collect();
    assert_eq!(lines.len(), 1 + titles.len());
    assert!(lines[0].contains("greek letters"));
    assert_eq!(lines[0], "Search results for 'greek letters':");
    for (i, title) in titles.iter().enumerate() {
        assert!(lines[i + 1].contains(title.as_str()));
    }
}

#[test]
fn json_output_matches_example() {
    let titles = vec![
        String::from("Rust (programming language)"),
        String::from("Systems programming"),
    ];
    let results = build_results(&titles);
    let out = render_json(&results);
    let expected = "[\n  \
        {\"title\":\"Rust (programming language)\",\"url\":\"https://en.wikipedia.org/wiki/Rust_(programming_language)\"},\n  \
        {\"title\":\"Systems programming\",\"url\":\"https://en.wikipedia.org/wiki/Systems_programming\"}\n]";
    assert_eq!(out, expected);
}

#[test]
fn json_output_is_valid_json_with_exact_keys_in_order() {
    let titles = vec![
        String::from("Rust (programming language)"),
        String::from("Systems programming"),
        String::from("Quote \" and backslash \\ and tab \t"),
    ];
    let results = build_results(&titles);
    let out = render_json(&results);
    let parsed: serde_json::Value = serde_json::from_str(&out).unwrap();
    let array = parsed.as_array().unwrap();
    assert_eq!(array.len(), titles.len());
    for (i, element) in array.iter().enumerate() {
        let object = element.as_object().unwrap();
        assert_eq!(object.len(), 2);
        assert_eq!(object.get("title").unwrap().as_str().unwrap(), titles[i]);
        assert_eq!(
            object.get("url").unwrap().as_str().unwrap(),
            article_url(&titles[i])
        );
    }
}

#[test]
fn json_output_escapes_special_characters_exactly() {
    let titles = vec![String::from("a\tb \u{1}")];
    let results = build_results(&titles);
    let out = render_json(&results);
    let expected = "[\n  {\"title\":\"a\\tb \\u0001\",\"url\":\"https://en.wikipedia.org/wiki/a\\tb_\\u0001\"}\n]";
    assert_eq!(out, expected);
    let titles = vec![String::from("quote \" backslash \\")];
    let results = build_results(&titles);
    let out = render_json(&results);
    let expected = "[\n  {\"title\":\"quote \\\" backslash \\\\\",\"url\":\"https://en.wikipedia.org/wiki/quote_\\\"_backslash_\\\\\"}\n]";
    assert_eq!(out, expected);
}

#[test]
fn json_output_empty_is_empty_array() {
    let results = build_results(&Vec::new());
    assert_eq!(render_json(&results), "[]");
}

#[test]
fn no_results_message_text() {
    assert_eq!(
        no_results_message("Rust programming"),
        "No search results found for 'Rust programming'"
    );
}

#[test]
fn render_output_dispatches_on_mode_and_results() {
    let titles = vec![String::from("Alpha")];
    let text = render_output("q", &Some(titles.clone()), false);
    assert!(text.starts_with("Search results for 'q':"));
    let json = render_output("q", &Some(titles), true);
    assert!(json.starts_with("[\n"));
    let none = render_output("q", &None, false);
    assert_eq!(none, "No search results found for 'q'");
    let empty = render_output("q", &Some(Vec::new()), true);
    assert_eq!(empty, "No search results found for 'q'");
}
